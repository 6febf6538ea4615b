use voxtree::direction::{Direction as PanDirection, Vec2i};
use voxtree::gfx::{check_gl_code, InitializeErr, GL_INVALID_ENUM, GL_NO_ERROR};
use voxtree::input::InputHandler;
use voxtree::resources::{buffer_has_nul, resource_name_to_path, Resources};
use voxtree::shading::{
    is_valid_shader, is_valid_update_function, shader_kind_for_name, COMPUTE_SHADER,
    FRAGMENT_SHADER, VERTEX_SHADER,
};
use voxtree::vao::{attribute_stride, VertexArrayObject, VertexAttributePointer};
use voxtree::{Direction, Material, Vec3i};

#[test]
fn material_codes_match_the_gpu_table() {
    assert_eq!(Material::Lambertian.code(), 0);
    assert_eq!(Material::Metal.code(), 1);
    assert_eq!(Material::Dielectric.code(), 2);
}

#[test]
fn movement_directions_are_unit_vectors() {
    assert_eq!(Direction::Front.into_vector3(), Vec3i { x: 0, y: 0, z: -1 });
    assert_eq!(Direction::Back.into_vector3(), Vec3i { x: 0, y: 0, z: 1 });
    assert_eq!(Direction::Rigth.into_vector3(), Vec3i { x: 1, y: 0, z: 0 });
    assert_eq!(Direction::Left.into_vector3(), Vec3i { x: -1, y: 0, z: 0 });
    assert_eq!(Direction::Up.into_vector3(), Vec3i { x: 0, y: 1, z: 0 });
    assert_eq!(Direction::Down.into_vector3(), Vec3i { x: 0, y: -1, z: 0 });
}

#[test]
fn pan_directions_are_unit_vectors() {
    assert_eq!(PanDirection::Up.into_vector2(), Vec2i { x: 0, y: -1 });
    assert_eq!(PanDirection::Rigth.into_vector2(), Vec2i { x: -1, y: 0 });
    assert_eq!(PanDirection::Down.into_vector2(), Vec2i { x: 0, y: 1 });
    assert_eq!(PanDirection::Left.into_vector2(), Vec2i { x: 1, y: 0 });
}

#[test]
fn gl_codes_classify() {
    assert!(check_gl_code(GL_NO_ERROR).is_ok());
    match check_gl_code(GL_INVALID_ENUM) {
        Err(InitializeErr::GL(code)) => assert_eq!(code, GL_INVALID_ENUM),
        _ => panic!("expected a driver error"),
    }
}

#[test]
fn variable_lookup_errors_pick_up_their_type() {
    let e = InitializeErr::VariableNotFound(String::from("camera.origin"));
    match e.var_into_typed("vec3") {
        InitializeErr::TypedVariableNotFound(name, t) => {
            assert_eq!(name, "camera.origin");
            assert_eq!(t, "vec3");
        },
        _ => panic!("expected a typed lookup failure"),
    }
    // every other error passes through unchanged
    let e = InitializeErr::GL(GL_INVALID_ENUM);
    assert!(matches!(e.var_into_typed("i32"), InitializeErr::GL(GL_INVALID_ENUM)));
}

#[test]
fn shader_stage_follows_the_extension() {
    assert_eq!(shader_kind_for_name("shaders/quad.vert"), Some(VERTEX_SHADER));
    assert_eq!(shader_kind_for_name("shaders/quad.frag"), Some(FRAGMENT_SHADER));
    assert_eq!(shader_kind_for_name("shaders/raytracer.comp"), Some(COMPUTE_SHADER));
    assert_eq!(shader_kind_for_name("shaders/raytracer.glsl"), None);
    assert_eq!(shader_kind_for_name("vert"), None);
    assert!(is_valid_shader("// #TEMPLATE-PIXEL"));
    assert!(is_valid_update_function("current_color.x += 0.1;"));
}

#[test]
fn resource_paths_join_under_the_root() {
    let res = Resources::new(String::from("/opt/demo/assets"));
    assert_eq!(res.to_abs_path("shaders/quad.vert"), "/opt/demo/assets/shaders/quad.vert");
    assert_eq!(resource_name_to_path("assets", "models/points.ply"), "assets/models/points.ply");
}

#[test]
fn nul_detection_guards_c_strings() {
    assert!(!buffer_has_nul(b"void main() {}"));
    assert!(buffer_has_nul(b"void\0main"));
    assert!(buffer_has_nul(b"\0"));
    assert!(!buffer_has_nul(b""));
}

#[test]
fn input_handler_tracks_first_occurrences() {
    let mut h = InputHandler::default();
    h.on_key_down(Some(10));
    h.on_key_down(Some(20));
    h.on_key_down(Some(30));
    h.on_key_down(None);
    assert_eq!(h.active_keys, vec![10, 20, 30]);
    // releasing swaps the last key into the released slot
    h.on_key_up(Some(10));
    assert_eq!(h.active_keys, vec![30, 20]);
    // an untracked key changes nothing
    h.on_key_up(Some(99));
    assert_eq!(h.active_keys, vec![30, 20]);
    h.on_key_up(None);
    assert_eq!(h.active_keys, vec![30, 20]);
    h.on_key_up(Some(20));
    h.on_key_up(Some(30));
    assert_eq!(h.active_keys, Vec::<i32>::new());
}

#[test]
fn attribute_stride_follows_the_highest_location() {
    let pos = VertexAttributePointer { location: 0, size: 3, offset: 0 };
    let uv = VertexAttributePointer { location: 1, size: 2, offset: 3 };
    // highest location is uv: (offset 3 + size 2) * 4 bytes
    assert_eq!(attribute_stride(&vec![pos, uv]), 20);
    assert_eq!(attribute_stride(&vec![uv, pos]), 20);
    assert_eq!(attribute_stride(&vec![pos]), 12);
    assert_eq!(attribute_stride(&Vec::new()), 0);
}

#[test]
fn vertex_array_object_remembers_its_handle() {
    let vao = VertexArrayObject::from_handle(7);
    assert_eq!(vao.id(), 7);
}
