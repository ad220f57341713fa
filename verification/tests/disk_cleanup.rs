use prism::disk_cleanup::{DiskCleanupManager, UsageInsightDefinition};

#[test]
fn macos_usage_insights_use_native_developer_cache_paths() {
    let home = "/Users/example";
    let mut insights = Vec::<UsageInsightDefinition>::new();

    DiskCleanupManager::push_macos_usage_insights(&mut insights, home);

    let path_for = |id: &str| {
        insights
            .iter()
            .find(|insight| insight.id == id)
            .map(|insight| insight.path.clone())
    };
    assert_eq!(
        path_for("cargo_registry"),
        Some("/Users/example/.cargo/registry".to_string())
    );
    assert_eq!(path_for("npm_cache"), Some("/Users/example/.npm".to_string()));
    assert_eq!(
        path_for("pnpm_store_macos"),
        Some("/Users/example/Library/pnpm/store".to_string())
    );
}
