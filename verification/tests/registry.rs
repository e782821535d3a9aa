use rscloud::registry::{RProvider, RType, Registry, RegistryError, ResourceType};

fn rt(provider: &str, region: &str, name: &str) -> ResourceType {
    ResourceType {
        rprovider: RProvider::new(provider.to_string(), region.to_string()),
        rtype: RType { name: name.to_string() },
    }
}

#[test]
fn register_type_twice_replaces_and_reports() {
    let mut r: Registry<u32, String> = Registry::new();
    assert!(r.register_type(&rt("aws", "eu", "Role"), 1).is_ok());
    assert!(matches!(r.register_type(&rt("aws", "eu", "Role"), 2),
        Err(RegistryError::TypeRegisteredAlready(_))));
    assert_eq!(r.serde_of(&rt("aws", "eu", "Role")), Some(&2));
    assert_eq!(r.serde_of(&rt("aws", "us", "Role")), None);
}

#[test]
fn ensure_type_asks_the_provider_once() {
    let mut r: Registry<String, String> = Registry::new();
    let t = rt("aws", "eu", "Function");
    let made = std::cell::Cell::new(0);
    let factory = |p: &RProvider| {
        made.set(made.get() + 1);
        Ok(format!("provider:{}", p.name))
    };
    let serde = |p: &String, t: &ResourceType| Ok(format!("{}:{}", p, t.rtype.name));
    assert!(r.ensure_type_is_registered(&t, &factory, &serde).is_ok());
    assert_eq!(r.serde_of(&t), Some(&"provider:aws:Function".to_string()));
    assert_eq!(r.provider_of(&t.rprovider), Some(&"provider:aws".to_string()));
    let t2 = rt("aws", "eu", "Role");
    assert!(r.ensure_type_is_registered(&t2, &factory, &serde).is_ok());
    assert_eq!(made.get(), 1);
    assert!(r.ensure_type_is_registered(&t, &factory, &serde).is_ok());
    assert_eq!(made.get(), 1);
}

#[test]
fn ensure_type_reports_the_errors_of_provider_and_type() {
    let mut r: Registry<String, String> = Registry::new();
    let t = rt("gcp", "eu", "Bucket");
    let no_provider = |p: &RProvider| Err(RegistryError::ProviderNotFound(p.name.clone()));
    let serde = |_p: &String, t: &ResourceType| Ok(t.rtype.name.clone());
    assert!(matches!(r.ensure_type_is_registered(&t, no_provider, serde),
        Err(RegistryError::ProviderNotFound(n)) if n == "gcp"));
    assert_eq!(r.serde_of(&t), None);
    let provider = |_p: &RProvider| Ok("p".to_string());
    let unsupported = |_p: &String, t: &ResourceType| Err(RegistryError::ResourceTypeNotSupported(t.rtype.name.clone()));
    assert!(matches!(r.ensure_type_is_registered(&t, provider, unsupported),
        Err(RegistryError::ResourceTypeNotSupported(n)) if n == "Bucket"));
    assert_eq!(r.serde_of(&t), None);
    assert_eq!(r.provider_of(&t.rprovider), Some(&"p".to_string()));
}

#[test]
fn register_provider_replaces() {
    let mut r: Registry<u32, u32> = Registry::new();
    let p = RProvider::new("aws".to_string(), "eu".to_string());
    r.register_provider(&p, 1);
    r.register_provider(&p, 2);
    assert_eq!(r.provider_of(&p), Some(&2));
    assert!(r.ensure_provider_is_registered(&p, |_p: &RProvider| Ok(3)).is_ok());
    assert_eq!(r.provider_of(&p), Some(&2));
}

#[test]
fn a_type_registered_twice_is_named_as_debug_writes_it() {
    let mut r: Registry<u32, String> = Registry::new();
    let t = rt("aws", "eu", "Role");
    assert!(r.register_type(&t, 1).is_ok());
    match r.register_type(&t, 2) {
        Err(RegistryError::TypeRegisteredAlready(m)) => {
            assert_eq!(m, format!("Type id {:?} was already registered.", t));
        }
        _ => panic!("registered twice"),
    }
}
