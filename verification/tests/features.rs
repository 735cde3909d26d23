use codex_config_schema::features::all_feature_specs;
use codex_config_schema::features::feature_for_key;
use codex_config_schema::features::is_known_feature_key;
use codex_config_schema::features::ConfigProfile;
use codex_config_schema::features::ConfigToml;
use codex_config_schema::features::Feature;
use codex_config_schema::features::FeatureOverrides;
use codex_config_schema::features::Features;
use codex_config_schema::features::FeaturesToml;
use codex_config_schema::features::LegacyFeatureToggles;
use codex_config_schema::features::Stage;
use codex_config_schema::features::ToolsToml;

fn empty_config() -> ConfigToml {
    ConfigToml {
        experimental_use_freeform_apply_patch: None,
        experimental_use_unified_exec_tool: None,
        tools: None,
        features: None,
    }
}

fn empty_profile() -> ConfigProfile {
    ConfigProfile {
        include_apply_patch_tool: None,
        experimental_use_freeform_apply_patch: None,
        experimental_use_unified_exec_tool: None,
        tools_web_search: None,
        tools_view_image: None,
        features: None,
    }
}

fn table(entries: &[(&str, bool)]) -> FeaturesToml {
    let mut t = FeaturesToml::default();
    for (k, v) in entries {
        t.insert(k.to_string(), *v);
    }
    t
}

#[test]
fn defaults_enable_exactly_the_default_features() {
    let f = Features::with_defaults();
    assert_eq!(
        f.enabled_features(),
        vec![
            Feature::ParallelToolCalls,
            Feature::ViewImageTool,
            Feature::ShellTool,
            Feature::ModelWarnings,
            Feature::ExecPolicy,
            Feature::RemoteCompaction,
            Feature::Skills,
        ]
    );
    assert!(f.legacy_feature_usages().is_empty());
    assert!(Features::default().enabled_features().is_empty());
}

#[test]
fn enable_and_disable_toggle_one_feature() {
    let mut f = Features::with_defaults();
    f.enable(Feature::Tui2).disable(Feature::Skills);
    assert!(f.enabled(Feature::Tui2));
    assert!(!f.enabled(Feature::Skills));
    assert!(f.enabled(Feature::ShellTool));
    f.disable(Feature::Tui2);
    assert!(!f.enabled(Feature::Tui2));
}

#[test]
fn every_feature_key_is_known_and_names_its_feature() {
    for spec in all_feature_specs() {
        assert!(is_known_feature_key(spec.key));
        assert_eq!(feature_for_key(spec.key), Some(spec.id));
        assert_eq!(spec.id.key(), spec.key);
        assert_eq!(spec.id.stage(), spec.stage);
        assert_eq!(spec.id.default_enabled(), spec.default_enabled);
    }
    assert_eq!(all_feature_specs().len(), 17);
    assert_eq!(feature_for_key("web_search"), Some(Feature::WebSearchRequest));
    assert_eq!(feature_for_key("include_apply_patch_tool"), Some(Feature::ApplyPatchFreeform));
    assert!(!is_known_feature_key("no_such_feature"));
}

#[test]
fn stage_accessors() {
    let beta = Feature::UnifiedExec.stage();
    assert_eq!(beta.beta_menu_name(), Some("Background terminal"));
    assert_eq!(
        beta.beta_menu_description(),
        Some("Run long-running terminal commands in the background.")
    );
    assert!(beta.beta_announcement().unwrap().starts_with("NEW!"));
    assert_eq!(beta.schema_label(), "Beta");
    assert_eq!(Stage::Stable.beta_menu_name(), None);
    assert_eq!(Stage::Experimental.schema_label(), "Experimental");
    assert_eq!(Stage::Deprecated.schema_label(), "Deprecated");
    assert_eq!(Stage::Removed.schema_label(), "Removed");
    assert_eq!(Feature::GhostCommit.description(), "Create a ghost commit at each turn.");
}

#[test]
fn apply_map_records_aliases_and_last_entry_wins() {
    let mut f = Features::with_defaults();
    let t = table(&[("web_search", true), ("web_search_request", false), ("unknown", true), ("tui2", true)]);
    f.apply_map(t.entries());
    // entries apply in key order: tui2, unknown, web_search, web_search_request
    assert!(!f.enabled(Feature::WebSearchRequest));
    assert!(f.enabled(Feature::Tui2));
    assert_eq!(
        f.legacy_feature_usages(),
        vec![("web_search".to_string(), Feature::WebSearchRequest)]
    );
}

#[test]
fn legacy_usages_are_sorted_and_deduplicated() {
    let mut f = Features::default();
    f.record_legacy_usage_force("b", Feature::Tui2);
    f.record_legacy_usage_force("a", Feature::Skills);
    f.record_legacy_usage_force("b", Feature::GhostCommit);
    f.record_legacy_usage_force("a", Feature::Skills);
    f.record_legacy_usage("tui2", Feature::Tui2);
    assert_eq!(
        f.legacy_feature_usages(),
        vec![
            ("a".to_string(), Feature::Skills),
            ("b".to_string(), Feature::GhostCommit),
            ("b".to_string(), Feature::Tui2),
        ]
    );
}

#[test]
fn legacy_toggles_set_features_and_record_aliases() {
    let mut f = Features::with_defaults();
    LegacyFeatureToggles {
        include_apply_patch_tool: Some(true),
        experimental_use_freeform_apply_patch: Some(false),
        experimental_use_unified_exec_tool: None,
        tools_web_search: Some(true),
        tools_view_image: Some(false),
    }
    .apply(&mut f);
    assert!(!f.enabled(Feature::ApplyPatchFreeform));
    assert!(f.enabled(Feature::WebSearchRequest));
    assert!(!f.enabled(Feature::ViewImageTool));
    assert_eq!(f.legacy_feature_usages().len(), 4);
}

#[test]
fn from_config_layers_config_profile_and_overrides() {
    let mut cfg = empty_config();
    cfg.tools = Some(ToolsToml { web_search: Some(true), view_image: None });
    cfg.features = Some(table(&[("tui2", true), ("skills", false)]));
    let mut profile = empty_profile();
    profile.features = Some(table(&[("tui2", false)]));
    let overrides = FeatureOverrides { include_apply_patch_tool: Some(true), web_search_request: Some(false) };
    let f = Features::from_config(&cfg, &profile, overrides);
    assert!(!f.enabled(Feature::Tui2));
    assert!(!f.enabled(Feature::Skills));
    assert!(!f.enabled(Feature::WebSearchRequest));
    assert!(f.enabled(Feature::ApplyPatchFreeform));
    assert_eq!(
        f.legacy_feature_usages(),
        vec![
            ("include_apply_patch_tool".to_string(), Feature::ApplyPatchFreeform),
            ("tools.web_search".to_string(), Feature::WebSearchRequest),
        ]
    );
    let plain = Features::from_config(&empty_config(), &empty_profile(), FeatureOverrides::default());
    assert_eq!(plain, Features::with_defaults());
}

#[test]
fn features_table_keeps_keys_sorted_and_replaces_values() {
    let t = table(&[("b", true), ("a", false), ("b", false)]);
    assert_eq!(t.entries(), &vec![("a".to_string(), false), ("b".to_string(), false)]);
}

#[test]
fn clones_keep_features_and_entries() {
    let mut f = Features::with_defaults();
    f.disable(Feature::Skills);
    f.record_legacy_usage("web_search", Feature::WebSearchRequest);
    let g = f.clone();
    assert_eq!(g, f);
    assert_eq!(g.enabled_features(), f.enabled_features());
    assert_eq!(g.legacy_feature_usages(), f.legacy_feature_usages());

    let t = table(&[("undo", true), ("parallel", false)]);
    let u = t.clone();
    assert_eq!(u, t);
    assert_eq!(u.entries(), t.entries());
    assert!(FeaturesToml::default().entries().is_empty());
}
