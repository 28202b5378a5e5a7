use galemind::discovery::ModelDiscoveryService;
use galemind::discovery::ModelSource;
use galemind::discovery::ResolvedSource;
use galemind::errors::EngineError;
use galemind::inference::InferenceRequest;
use galemind::mlflow::MLFlowClientTrait;
use galemind::mlflow::MLFlowModel;
use galemind::mlflow::MLFlowModelVersion;
use galemind::model_id::ModelId;

fn request(model: &str, id: &str) -> InferenceRequest {
    InferenceRequest {
        model_name: model.to_string(),
        model_version: None,
        id: id.to_string(),
        parameters: None,
        outputs: None,
    }
}

fn names(service: &ModelDiscoveryService) -> Vec<String> {
    service.get_models().into_iter().map(|id| id.0).collect()
}

struct StubCatalog {
    models: Vec<String>,
}

impl MLFlowClientTrait for StubCatalog {
    fn list_models(&self) -> Result<Vec<MLFlowModel>, EngineError> {
        Ok(self
            .models
            .iter()
            .map(|name| MLFlowModel {
                name: name.clone(),
                version: Some("1".to_string()),
                creation_timestamp: None,
                last_updated_timestamp: None,
                description: None,
                tags: None,
            })
            .collect())
    }

    fn get_model_versions(&self, _model_name: &str) -> Result<Vec<MLFlowModelVersion>, EngineError> {
        Ok(Vec::new())
    }

    fn get_model(&self, name: &str) -> Result<Option<MLFlowModel>, EngineError> {
        Ok(self.models.iter().find(|m| m.as_str() == name).map(|m| MLFlowModel {
            name: m.clone(),
            version: None,
            creation_timestamp: None,
            last_updated_timestamp: None,
            description: None,
            tags: None,
        }))
    }
}

#[test]
fn test_model_discovery_service_register_model() {
    let mut service = ModelDiscoveryService::new(10);
    let model_id = ModelId::from_string("test_model".to_string());

    service.register_model(model_id.clone());
    let models = service.get_models();
    assert!(models.contains(&model_id));
}

#[test]
fn test_discover_models_with_mixed_sources() {
    let mut service = ModelDiscoveryService::new(10);
    let sources = vec![
        ResolvedSource::Id("model1".to_string()),
        ResolvedSource::Url("https://example.com/model2".to_string()),
    ];

    let discovered = service.discover_models(&sources);
    assert_eq!(discovered.len(), 2);
    assert_eq!(discovered[0].0, "model1");
    assert_eq!(discovered[1].0, "model2");
}

#[test]
fn test_discovery_fan_in_keeps_source_order() {
    let mut service = ModelDiscoveryService::new(10);
    let sources = vec![
        ResolvedSource::Id("a".to_string()),
        ResolvedSource::Url("https://h/x/b".to_string()),
        ResolvedSource::File("/tmp/fake.py".to_string()),
    ];
    let discovered = service.discover_models(&sources);
    let ids: Vec<String> = discovered.into_iter().map(|id| id.0).collect();
    assert_eq!(ids, vec!["a", "b", "fake.py"]);
    assert_eq!(names(&service), vec!["a", "b", "fake.py"]);
}

#[test]
fn test_discovery_is_idempotent() {
    let mut service = ModelDiscoveryService::new(10);
    let sources = vec![
        ResolvedSource::Id("a".to_string()),
        ResolvedSource::Url("https://h/x/b".to_string()),
        ResolvedSource::Id("a".to_string()),
    ];
    let first = service.discover_models(&sources);
    assert_eq!(first.len(), 3, "every yielded identity is reported");
    let after_once = names(&service);

    let second = service.discover_models(&sources);
    assert_eq!(second.len(), 3);
    assert_eq!(names(&service), after_once, "re-discovery registers nothing new");
}

#[test]
fn test_directory_listing_registers_model_files() {
    let mut service = ModelDiscoveryService::new(10);
    let entries = vec![
        "/models/alpha.py".to_string(),
        "/models/not_a_model".to_string(),
        "/models/beta.onnx".to_string(),
    ];
    let ids = service.register_from_dir_listing(&entries);
    let found: Vec<String> = ids.into_iter().map(|id| id.0).collect();
    assert_eq!(found, vec!["alpha.py", "beta.onnx"]);
    assert_eq!(names(&service), vec!["alpha.py", "beta.onnx"]);
}

#[test]
fn test_rejected_sources_yield_nothing() {
    let mut service = ModelDiscoveryService::new(10);
    let sources = vec![
        ResolvedSource::Url("https://h/ends/in/slash/".to_string()),
        ResolvedSource::File("/models/no_extension".to_string()),
    ];
    let discovered = service.discover_models(&sources);
    assert!(discovered.is_empty());
    assert!(names(&service).is_empty());
}

#[test]
fn test_add_request_registers_unknown_model() {
    let mut service = ModelDiscoveryService::new(10);
    service.add_request(ModelId::from_string("m".to_string()), request("m", "r1"));
    service.add_request(ModelId::from_string("m".to_string()), request("m", "r2"));
    assert_eq!(names(&service), vec!["m"]);
}

#[test]
fn test_discover_from_mlflow_single_model() {
    let mut service = ModelDiscoveryService::new(10);
    let catalog = StubCatalog { models: vec!["test_model".to_string()] };
    let ids = service.discover_from_mlflow(&catalog, Some("test_model")).unwrap();
    assert_eq!(ids.len(), 1);
    assert_eq!(ids[0].0, "test_model");
    assert_eq!(names(&service), vec!["test_model"]);
}

#[test]
fn test_discover_from_mlflow_unknown_model_registers_nothing() {
    let mut service = ModelDiscoveryService::new(10);
    let catalog = StubCatalog { models: vec!["test_model".to_string()] };
    let ids = service.discover_from_mlflow(&catalog, Some("nonexistent")).unwrap();
    assert!(ids.is_empty());
    assert!(names(&service).is_empty());
}

#[test]
fn test_discover_from_mlflow_lists_all_models() {
    let mut service = ModelDiscoveryService::new(10);
    let catalog = StubCatalog { models: vec!["one".to_string(), "two".to_string()] };
    let ids = service.discover_from_mlflow(&catalog, None).unwrap();
    let found: Vec<String> = ids.into_iter().map(|id| id.0).collect();
    assert_eq!(found, vec!["one", "two"]);
    assert_eq!(names(&service), vec!["one", "two"]);
}

#[test]
fn test_model_source_variants_cover_the_catalog() {
    let source = ModelSource::MLFlow {
        base_url: "http://localhost:5000".to_string(),
        api_token: Some("token123".to_string()),
        model_name: None,
    };
    assert!(matches!(source, ModelSource::MLFlow { .. }));
    if let ModelSource::MLFlow { model_name, .. } = &source {
        assert!(model_name.is_none());
    }
    assert!(matches!(ModelSource::Path("/m/x.py".to_string()), ModelSource::Path(_)));
    assert!(matches!(ModelSource::Id("a".to_string()), ModelSource::Id(_)));
}
