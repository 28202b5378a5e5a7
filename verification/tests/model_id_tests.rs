use galemind::model_id::ModelId;

#[test]
fn test_from_path_with_valid_file_extension() {
    let path = "/models/my_model.py";
    let model_id = ModelId::from_path(path).unwrap();
    assert_eq!(model_id.0, "my_model.py");
}

#[test]
fn test_from_path_with_subpath_and_filename() {
    let path = "/models/my_model/my_model.py";
    let model_id = ModelId::from_path(path).unwrap();
    assert_eq!(model_id.0, "my_model.py");
}

#[test]
fn test_from_path_with_no_filename() {
    let path = "/models/";
    let model_id = ModelId::from_path(path);
    assert!(model_id.is_none());
}

#[test]
fn test_from_path_with_subpath_and_no_filename() {
    let path = "/models/my_model";
    let model_id = ModelId::from_path(path);
    assert!(model_id.is_none());
}

#[test]
fn test_from_path_with_empty_path() {
    let path = "";
    let model_id = ModelId::from_path(path);
    assert!(model_id.is_none());
}

#[test]
fn model_manager_test_from_path_with_valid_file_extension() {
    let path = "/models/my_model.py";
    let model_id = ModelId::from_path(path).unwrap();
    assert_eq!(model_id.0, "my_model.py");
}

#[test]
fn model_manager_test_from_path_with_subpath_and_filename() {
    let path = "/models/my_model/my_model.py";
    let model_id = ModelId::from_path(path).unwrap();
    assert_eq!(model_id.0, "my_model.py");
}

#[test]
fn model_manager_test_from_path_with_no_filename() {
    let path = "/models/";
    let model_id = ModelId::from_path(path);
    assert!(model_id.is_none());
}

#[test]
fn model_manager_test_from_path_with_subpath_and_no_filename() {
    let path = "/models/my_model";
    let model_id = ModelId::from_path(path);
    assert!(model_id.is_none());
}

#[test]
fn model_manager_test_from_path_with_empty_path() {
    let path = "";
    let model_id = ModelId::from_path(path);
    assert!(model_id.is_none());
}

#[test]
fn test_from_url_with_valid_url() {
    let url = "https://example.com/models/my_model";
    let model_id = ModelId::from_url(url).unwrap();
    assert_eq!(model_id.0, "my_model");
}

#[test]
fn test_from_url_with_trailing_slash() {
    let url = "https://example.com/models/my_model/";
    let model_id = ModelId::from_url(url);
    assert!(model_id.is_none());
}

#[test]
fn test_from_string() {
    let id = "my_custom_model".to_string();
    let model_id = ModelId::from_string(id);
    assert_eq!(model_id.0, "my_custom_model");
}

#[test]
fn test_from_path_with_hidden_file_is_rejected() {
    assert!(ModelId::from_path("/models/.gitignore").is_none());
}

#[test]
fn test_from_path_without_directory() {
    let model_id = ModelId::from_path("standalone.onnx").unwrap();
    assert_eq!(model_id.0, "standalone.onnx");
}

#[test]
fn test_model_id_equality_is_by_name() {
    let a = ModelId::from_string("m".to_string());
    let b = ModelId::from_string("m".to_string());
    assert!(a.eq_id(&b));
    assert_eq!(a, b);
    assert_eq!(a.name(), "m");
}
