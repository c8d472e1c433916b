use bevy::asset::{Handle, LoadedFolder, UntypedHandle};
use pg_models::descriptor::{clone_texts, MLib, ModelData};
use pg_models::extract::{select_parts, IntegrityError, SubMeshFound};
use pg_models::handle::clone_slot;
use pg_models::loader::Loader;
use pg_models::loading::{LoadStatus, ModelsState};
use pg_models::registry::{
    build_index, find_bundle, process_models, resolve_model, MeshBundle, Model, Models,
};

fn handle(n: u128) -> UntypedHandle {
    Handle::<LoadedFolder>::weak_from_u128(n).untyped()
}

fn bundle(path: &str, n: u128) -> MeshBundle {
    MeshBundle { path: path.to_string(), handle: handle(n) }
}

fn descriptor(mlib: MLib, model_path: &str, options: Option<Vec<&str>>) -> ModelData {
    ModelData {
        mlib,
        model_path: model_path.to_string(),
        label: None,
        height_bits: None,
        scale_bits: None,
        options: options.map(|tags| tags.into_iter().map(|t| t.to_string()).collect()),
    }
}

fn registry(bundles: Vec<MeshBundle>, descriptors: Vec<ModelData>) -> Models {
    let mut models = Models::new();
    process_models(&mut models, &bundles, &descriptors);
    models
}

#[test]
fn identity_codes_differ() {
    assert_eq!(MLib::BlueCar.code(), 0);
    assert_eq!(MLib::RedHouse.code(), 1);
}

#[test]
fn descriptor_clone_keeps_every_field() {
    let md = ModelData {
        mlib: MLib::RedHouse,
        model_path: "house".to_string(),
        label: Some("House".to_string()),
        height_bits: Some(2.5f32.to_bits()),
        scale_bits: Some((1.0f32.to_bits(), 2.0f32.to_bits(), 3.0f32.to_bits())),
        options: Some(vec!["red_".to_string(), "blue_".to_string()]),
    };
    let copy = md.clone();
    assert_eq!(copy.mlib, MLib::RedHouse);
    assert_eq!(copy.model_path, "house");
    assert_eq!(copy.label, Some("House".to_string()));
    assert_eq!(copy.height_bits.map(f32::from_bits), Some(2.5));
    assert_eq!(copy.scale_bits, md.scale_bits);
    assert_eq!(copy.options, Some(vec!["red_".to_string(), "blue_".to_string()]));
}

#[test]
fn clone_texts_copies_in_order() {
    let list = vec!["a".to_string(), "".to_string(), "c".to_string()];
    assert_eq!(clone_texts(&list), list);
    assert_eq!(clone_texts(&Vec::new()), Vec::<String>::new());
}

#[test]
fn clone_slot_keeps_the_handle() {
    assert_eq!(clone_slot(&Some(handle(9))), Some(handle(9)));
    assert_eq!(clone_slot(&None), None);
}

#[test]
fn random_option_of_plain_descriptor_is_none() {
    assert_eq!(descriptor(MLib::BlueCar, "car", None).get_random_option(), None);
}

#[test]
fn random_option_of_single_tag_is_that_tag() {
    let md = descriptor(MLib::BlueCar, "car", Some(vec!["red_"]));
    for _ in 0..50 {
        assert_eq!(md.get_random_option(), Some("red_"));
    }
}

#[test]
fn random_option_is_a_declared_tag() {
    let md = descriptor(MLib::BlueCar, "car", Some(vec!["red_", "blue_", "green_"]));
    for _ in 0..200 {
        let tag = md.get_random_option().unwrap();
        assert!(tag == "red_" || tag == "blue_" || tag == "green_");
    }
}

#[test]
fn option_at_reads_by_position() {
    let md = descriptor(MLib::BlueCar, "car", Some(vec!["red_", "blue_"]));
    assert_eq!(md.option_at(0), "red_");
    assert_eq!(md.option_at(1), "blue_");
}

#[test]
fn new_model_has_no_meshes() {
    let model = Model::new(descriptor(MLib::BlueCar, "car", None));
    assert_eq!(model.md.model_path, "car");
    assert_eq!(model.meshes.len(), 0);
}

#[test]
fn index_is_keyed_by_derived_name() {
    let index = build_index(&vec![bundle("gltf/box.gltf", 1), bundle("gltf/cars/car.glb", 2)]);
    assert_eq!(index.len(), 2);
    assert_eq!(find_bundle(&index, "box"), Some(handle(1)));
    assert_eq!(find_bundle(&index, "car"), Some(handle(2)));
    assert_eq!(find_bundle(&index, "gltf/box.gltf"), None);
    assert_eq!(find_bundle(&index, "house"), None);
}

#[test]
fn later_bundle_of_one_name_wins() {
    let index = build_index(&vec![bundle("a/box.gltf", 1), bundle("b/box.glb", 2)]);
    assert_eq!(index.len(), 1);
    assert_eq!(find_bundle(&index, "box"), Some(handle(2)));
}

#[test]
fn empty_registry_knows_nothing() {
    let models = Models::new();
    assert!(!models.is_valid(&MLib::BlueCar));
    assert!(models.get_data(&MLib::RedHouse).is_none());
    assert!(models.get_model(&MLib::RedHouse).is_none());
    assert_eq!(models.get_mesh(&MLib::BlueCar, "car", None), None);
    assert!(!models.has_mesh(&MLib::BlueCar, "car", None));
    assert!(!models.can_extract(&MLib::BlueCar, None));
    let other = Models::default();
    assert!(!other.is_valid(&MLib::BlueCar));
}

#[test]
fn plain_descriptor_with_bundle_resolves() {
    let models = registry(
        vec![bundle("gltf/box.gltf", 7)],
        vec![descriptor(MLib::RedHouse, "box", None)],
    );
    assert!(models.is_valid(&MLib::RedHouse));
    assert!(!models.is_valid(&MLib::BlueCar));
    assert_eq!(models.get_data(&MLib::RedHouse).unwrap().model_path, "box");
    assert!(models.has_mesh(&MLib::RedHouse, "box", None));
    assert_eq!(models.get_mesh(&MLib::RedHouse, "box", None), Some(handle(7)));
    assert_eq!(models.get_model(&MLib::RedHouse).unwrap().meshes.len(), 1);
}

#[test]
fn plain_descriptor_without_bundle_keeps_its_key() {
    let models = registry(
        vec![bundle("gltf/car.gltf", 7)],
        vec![descriptor(MLib::RedHouse, "box", None)],
    );
    assert!(models.has_mesh(&MLib::RedHouse, "box", None));
    assert_eq!(models.get_mesh(&MLib::RedHouse, "box", None), None);
    let model = models.get_model(&MLib::RedHouse).unwrap();
    assert_eq!(model.meshes.len(), 1);
    assert_eq!(model.meshes.get("box"), Some(&None));
    assert_eq!(model.meshes.get("car"), None);
}

#[test]
fn variants_have_one_key_per_tag() {
    let models = registry(
        vec![bundle("gltf/car.glb", 3)],
        vec![descriptor(MLib::BlueCar, "car", Some(vec!["red_", "blue_", "green_"]))],
    );
    let model = models.get_model(&MLib::BlueCar).unwrap();
    assert_eq!(model.meshes.len(), 3);
    assert_eq!(model.meshes.get("red_car"), Some(&Some(handle(3))));
    assert_eq!(model.meshes.get("blue_car"), Some(&Some(handle(3))));
    assert_eq!(model.meshes.get("green_car"), Some(&Some(handle(3))));
    assert_eq!(model.meshes.get("car"), None);
    assert!(!models.has_mesh(&MLib::BlueCar, "car", None));
    assert!(models.has_mesh(&MLib::BlueCar, "car", Some("red_")));
    assert!(!models.has_mesh(&MLib::BlueCar, "car", Some("pink_")));
    assert_eq!(models.get_mesh(&MLib::BlueCar, "car", Some("blue_")), Some(handle(3)));
}

#[test]
fn variants_are_looked_up_by_bare_path() {
    let models = registry(
        vec![bundle("gltf/red_car.glb", 3)],
        vec![descriptor(MLib::BlueCar, "car", Some(vec!["red_", "blue_"]))],
    );
    assert!(models.has_mesh(&MLib::BlueCar, "car", Some("red_")));
    assert_eq!(models.get_mesh(&MLib::BlueCar, "car", Some("red_")), None);
    assert_eq!(models.get_mesh(&MLib::BlueCar, "car", Some("blue_")), None);
}

#[test]
fn repeated_tags_share_one_key() {
    let models = registry(
        vec![bundle("car.gltf", 3)],
        vec![descriptor(MLib::BlueCar, "car", Some(vec!["red_", "red_"]))],
    );
    assert_eq!(models.get_model(&MLib::BlueCar).unwrap().meshes.len(), 1);
    assert_eq!(models.get_mesh(&MLib::BlueCar, "car", Some("red_")), Some(handle(3)));
}

#[test]
fn empty_tag_list_gives_no_key() {
    let models = registry(
        vec![bundle("car.gltf", 3)],
        vec![descriptor(MLib::BlueCar, "car", Some(Vec::new()))],
    );
    assert!(models.is_valid(&MLib::BlueCar));
    assert_eq!(models.get_model(&MLib::BlueCar).unwrap().meshes.len(), 0);
    assert!(!models.has_mesh(&MLib::BlueCar, "car", None));
    assert!(!models.can_extract(&MLib::BlueCar, None));
}

#[test]
fn later_descriptor_of_one_identity_wins() {
    let models = registry(
        vec![bundle("box.gltf", 1), bundle("car.gltf", 2)],
        vec![
            descriptor(MLib::BlueCar, "box", None),
            descriptor(MLib::BlueCar, "car", Some(vec!["red_"])),
        ],
    );
    assert_eq!(models.get_data(&MLib::BlueCar).unwrap().model_path, "car");
    assert!(!models.has_mesh(&MLib::BlueCar, "box", None));
    assert_eq!(models.get_mesh(&MLib::BlueCar, "car", Some("red_")), Some(handle(2)));
}

#[test]
fn insert_replaces_the_entry() {
    let index = build_index(&vec![bundle("box.gltf", 1)]);
    let mut models = Models::new();
    models.insert(resolve_model(&descriptor(MLib::BlueCar, "box", None), &index));
    models.insert(resolve_model(&descriptor(MLib::RedHouse, "hut", None), &index));
    assert_eq!(models.get_mesh(&MLib::BlueCar, "box", None), Some(handle(1)));
    assert_eq!(models.get_mesh(&MLib::RedHouse, "hut", None), None);
    models.insert(resolve_model(&descriptor(MLib::BlueCar, "hut", None), &index));
    assert_eq!(models.get_data(&MLib::BlueCar).unwrap().model_path, "hut");
    assert_eq!(models.get_data(&MLib::RedHouse).unwrap().model_path, "hut");
}

#[test]
fn two_descriptors_end_to_end() {
    let models = registry(
        vec![bundle("gltf/box.gltf", 10), bundle("gltf/red_car.gltf", 20)],
        vec![
            descriptor(MLib::RedHouse, "box", None),
            descriptor(MLib::BlueCar, "car", Some(vec!["red_", "blue_"])),
        ],
    );
    assert_eq!(models.get_mesh(&MLib::RedHouse, "box", None), Some(handle(10)));
    assert!(models.has_mesh(&MLib::BlueCar, "car", Some("red_")));
    assert!(models.has_mesh(&MLib::BlueCar, "car", Some("blue_")));
    assert_eq!(models.get_mesh(&MLib::BlueCar, "car", Some("red_")), None);
    assert_eq!(models.get_mesh(&MLib::BlueCar, "car", Some("blue_")), None);
    assert_eq!(models.get_model(&MLib::BlueCar).unwrap().meshes.len(), 2);
}

#[test]
fn loader_publishes_the_built_registry() {
    let mut loader = Loader::new();
    loader.tick(LoadStatus::Loaded, LoadStatus::Loaded);
    assert!(loader.build(
        &vec![bundle("gltf/box.gltf", 10)],
        &vec![descriptor(MLib::RedHouse, "box", None)],
    ));
    assert_eq!(loader.state(), ModelsState::Ready);
    let models = loader.models().unwrap();
    assert_eq!(models.get_mesh(&MLib::RedHouse, "box", None), Some(handle(10)));
}

#[test]
fn registry_does_not_change_after_ready() {
    let mut loader = Loader::new();
    loader.tick(LoadStatus::Loaded, LoadStatus::Loaded);
    loader.build(&vec![bundle("box.gltf", 10)], &vec![descriptor(MLib::RedHouse, "box", None)]);
    assert!(!loader.build(
        &vec![bundle("box.gltf", 11), bundle("car.gltf", 12)],
        &vec![descriptor(MLib::RedHouse, "car", None), descriptor(MLib::BlueCar, "car", None)],
    ));
    let models = loader.models().unwrap();
    assert_eq!(models.get_data(&MLib::RedHouse).unwrap().model_path, "box");
    assert_eq!(models.get_mesh(&MLib::RedHouse, "box", None), Some(handle(10)));
    assert!(!models.is_valid(&MLib::BlueCar));
}

#[test]
fn absent_handle_makes_no_request() {
    let models = registry(
        vec![bundle("red_car.gltf", 20)],
        vec![
            descriptor(MLib::RedHouse, "box", None),
            descriptor(MLib::BlueCar, "car", Some(vec!["red_"])),
        ],
    );
    assert!(models.can_extract(&MLib::RedHouse, None));
    assert!(models.extract_request(&MLib::RedHouse, None).is_none());
    assert!(models.can_extract(&MLib::BlueCar, Some("red_")));
    assert!(models.extract_request(&MLib::BlueCar, Some("red_")).is_none());
}

#[test]
fn request_names_bundle_and_sub_mesh() {
    let models = registry(
        vec![bundle("box.gltf", 10), bundle("car.glb", 20)],
        vec![
            descriptor(MLib::RedHouse, "box", None),
            descriptor(MLib::BlueCar, "car", Some(vec!["red_", "blue_"])),
        ],
    );
    let plain = models.extract_request(&MLib::RedHouse, None).unwrap();
    assert_eq!(plain.bundle, handle(10));
    assert_eq!(plain.name, "box");
    let blue = models.extract_request(&MLib::BlueCar, Some("blue_")).unwrap();
    assert_eq!(blue.bundle, handle(20));
    assert_eq!(blue.name, "blue_car");
}

#[test]
fn extraction_needs_a_built_key() {
    let models = registry(
        vec![bundle("car.glb", 20)],
        vec![descriptor(MLib::BlueCar, "car", Some(vec!["red_"]))],
    );
    assert!(!models.can_extract(&MLib::RedHouse, None));
    assert!(!models.can_extract(&MLib::BlueCar, None));
    assert!(!models.can_extract(&MLib::BlueCar, Some("blue_")));
    assert!(models.can_extract(&MLib::BlueCar, Some("red_")));
}

#[test]
fn unloaded_bundle_is_no_error() {
    assert!(matches!(select_parts(SubMeshFound::BundleAbsent), Ok(None)));
}

#[test]
fn missing_sub_mesh_name_is_an_error() {
    assert!(matches!(select_parts(SubMeshFound::NameAbsent), Err(IntegrityError::NameAbsent)));
}

#[test]
fn missing_sub_mesh_asset_is_an_error() {
    assert!(matches!(
        select_parts(SubMeshFound::SubMeshAbsent),
        Err(IntegrityError::SubMeshAbsent)
    ));
}

#[test]
fn sub_mesh_without_primitive_is_an_error() {
    assert!(matches!(select_parts(SubMeshFound::NoPrimitive), Err(IntegrityError::NoPrimitive)));
}

#[test]
fn primitive_without_material_is_an_error() {
    let found = SubMeshFound::Primitive { mesh: handle(1), material: None };
    assert!(matches!(select_parts(found), Err(IntegrityError::NoMaterial)));
}

#[test]
fn complete_primitive_gives_mesh_and_material() {
    let found = SubMeshFound::Primitive { mesh: handle(1), material: Some(handle(2)) };
    let parts = select_parts(found).unwrap().unwrap();
    assert_eq!(parts.mesh, handle(1));
    assert_eq!(parts.mat, handle(2));
}
