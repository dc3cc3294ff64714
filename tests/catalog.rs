use fake_ollama::catalog::{catalog, catalog_entry, entry_with_digest, model_family};

#[test]
fn llama_entry() {
    let e = catalog_entry(&"llama2".to_string(), "2024-01-01T00:00:00+00:00".to_string());
    assert_eq!(e.name, "llama2");
    assert_eq!(e.model, "llama2");
    assert_eq!(e.modified_at, "2024-01-01T00:00:00+00:00");
    assert_eq!(e.size, 1234567890);
    assert_eq!(e.digest, "d41c0af6c8278228e6912e310197059aca502a16987aa9c6901dc4ab5586224c");
    assert_eq!(e.details.parent_model, "");
    assert_eq!(e.details.format, "gguf");
    assert_eq!(e.details.family, "llama2");
    assert_eq!(e.details.families, vec!["llama2".to_string()]);
    assert_eq!(e.details.parameter_size, "405B");
    assert_eq!(e.details.quantization_level, "Q4_0");
}

#[test]
fn mistral_and_other_entries() {
    let m = entry_with_digest(&"open-mistral:7b".to_string(), "d".to_string(), "t".to_string());
    assert_eq!(m.size, 1234567890);
    assert_eq!(m.details.format, "gguf");
    assert_eq!(m.details.family, "open");
    assert_eq!(m.details.parameter_size, "unknown");
    assert_eq!(m.details.quantization_level, "unknown");
    assert_eq!(m.digest, "d");

    let o = entry_with_digest(&"gpt-4o".to_string(), "d".to_string(), "t".to_string());
    assert_eq!(o.size, 9876543210);
    assert_eq!(o.details.format, "unknown");
    assert_eq!(o.details.family, "gpt");
    assert_eq!(o.details.parameter_size, "unknown");

    let both = entry_with_digest(&"mistral-llama".to_string(), "d".to_string(), "t".to_string());
    assert_eq!(both.details.parameter_size, "405B");
    assert_eq!(both.details.quantization_level, "Q4_0");
}

#[test]
fn family_falls_back_to_unknown() {
    assert_eq!(model_family("-x"), "unknown");
    assert_eq!(model_family(""), "unknown");
    assert_eq!(model_family("Qwen2.5-coder"), "Qwen2");
    assert_eq!(model_family("codellama:13b"), "codellama");
}

#[test]
fn catalog_keeps_order() {
    let names = vec!["llama2".to_string(), "mistral".to_string()];
    let c = catalog(&names);
    assert_eq!(c.len(), 2);
    assert_eq!(c[0].name, "llama2");
    assert_eq!(c[1].name, "mistral");
    assert_eq!(c[1].details.format, "gguf");
    assert!(!c[0].modified_at.is_empty());
    assert_eq!(c[0].digest.len(), 64);
    assert!(catalog(&Vec::new()).is_empty());
}
