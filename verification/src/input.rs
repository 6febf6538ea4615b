//! The pressed-key set shared between the event thread and the render
//! thread: keys are tracked by their platform key code.

use vstd::prelude::*;

verus! {

/// Index of the first occurrence of `k` in `s`, or `-1` when absent.
pub open spec fn spec_first_index_of(s: Seq<i32>, k: i32) -> int
    decreases s.len(),
{
    if s.len() == 0 {
        -1
    } else if s[0] == k {
        0
    } else {
        let r = spec_first_index_of(s.skip(1), k);
        if r < 0 {
            -1
        } else {
            r + 1
        }
    }
}

proof fn lemma_first_index_found(s: Seq<i32>, k: i32, i: int)
    requires
        0 <= i < s.len(),
        s[i] == k,
        forall|j: int| 0 <= j < i ==> s[j] != k,
    ensures
        spec_first_index_of(s, k) == i,
    decreases i,
{
    if i > 0 {
        lemma_first_index_found(s.skip(1), k, i - 1);
    }
}

proof fn lemma_first_index_absent(s: Seq<i32>, k: i32)
    requires
        forall|j: int| 0 <= j < s.len() ==> s[j] != k,
    ensures
        spec_first_index_of(s, k) == -1,
    decreases s.len(),
{
    if s.len() > 0 {
        lemma_first_index_absent(s.skip(1), k);
    }
}

/// The set of currently pressed keys, as platform key codes, in the order
/// they went down.
pub struct InputHandler {
    pub active_keys: Vec<i32>,
}

impl Default for InputHandler {
    /// A handler with no keys pressed.
    fn default() -> (r: InputHandler)
        ensures
            r.active_keys@ == Seq::<i32>::empty(),
    {
        InputHandler { active_keys: Vec::new() }
    }
}

impl InputHandler {
    /// Record a key going down: the key is appended to the pressed set; a
    /// keyless event changes nothing.
    pub fn on_key_down(&mut self, key_o: Option<i32>)
        ensures
            match key_o {
                Some(k) => final(self).active_keys@ == old(self).active_keys@.push(k),
                None => final(self).active_keys@ == old(self).active_keys@,
            },
    {
        let key = match key_o {
            Some(k) => k,
            None => {
                return ;
            },
        };
        self.active_keys.push(key);
    }

    /// Record a key going up: the first tracked occurrence of the key is
    /// removed by swapping the last entry into its place; an absent key or
    /// a keyless event changes nothing.
    pub fn on_key_up(&mut self, key_o: Option<i32>)
        ensures
            match key_o {
                Some(k) => {
                    let i = spec_first_index_of(old(self).active_keys@, k);
                    if i >= 0 {
                        final(self).active_keys@ == old(self).active_keys@.update(
                            i,
                            old(self).active_keys@.last(),
                        ).drop_last()
                    } else {
                        final(self).active_keys@ == old(self).active_keys@
                    }
                },
                None => final(self).active_keys@ == old(self).active_keys@,
            },
    {
        let key = match key_o {
            Some(k) => k,
            None => {
                return ;
            },
        };
        match find_first(&self.active_keys, key) {
            Some(n) => {
                self.active_keys.swap_remove(n);
            },
            None => {},
        }
    }
}

/// Position of the first occurrence of `key`, if it is present.
fn find_first(keys: &Vec<i32>, key: i32) -> (r: Option<usize>)
    ensures
        ({
            let i = spec_first_index_of(keys@, key);
            if i >= 0 {
                i < keys@.len() && r == Some(i as usize)
            } else {
                r == None::<usize>
            }
        }),
{
    let mut i: usize = 0;
    while i < keys.len()
        invariant
            i <= keys@.len(),
            forall|j: int| 0 <= j < i ==> keys@[j] != key,
        decreases keys@.len() - i,
    {
        if keys[i] == key {
            proof {
                lemma_first_index_found(keys@, key, i as int);
            }
            return Some(i);
        }
        i = i + 1;
    }
    proof {
        lemma_first_index_absent(keys@, key);
    }
    None
}

} // verus!
