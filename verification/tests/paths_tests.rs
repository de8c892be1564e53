use sitegen::errors::BuildError;
use sitegen::paths::{
    files, folders, get_file_path, get_folder_path, get_staging_file_path,
    get_staging_folder_path,
};

#[test]
fn file_paths_join_base_folder_and_name() {
    assert_eq!(get_file_path(("templates", "article.hbs")), "site/templates/article.hbs");
    assert_eq!(get_file_path(("style", "style.css")), "site/style/style.css");
}

#[test]
fn staging_file_paths_join_staging_folder_and_name() {
    assert_eq!(get_staging_file_path(("articles", "index.html")), "staging/articles/index.html");
}

#[test]
fn folder_paths_join_base_and_folder() {
    assert_eq!(get_folder_path("images"), "site/images");
    assert_eq!(get_staging_folder_path("images"), "staging/images");
}

#[test]
fn the_required_folders_are_fixed() {
    assert_eq!(
        folders(),
        vec![
            "site/templates".to_string(),
            "site/style".to_string(),
            "site/images".to_string(),
            "site/articles".to_string(),
        ]
    );
}

#[test]
fn the_required_files_are_fixed() {
    assert_eq!(
        files(),
        vec![
            "site/templates/main.hbs".to_string(),
            "site/templates/article.hbs".to_string(),
            "site/templates/card.hbs".to_string(),
            "site/templates/list.hbs".to_string(),
            "site/style/tailwind.config.js".to_string(),
            "site/style/style.css".to_string(),
        ]
    );
}

#[test]
fn prechecks_fail_where_the_site_tree_is_absent() {
    assert!(!sitegen::checks::check_folders());
    assert!(!sitegen::checks::check_files());
}

#[test]
fn error_messages_name_the_failing_file() {
    let e = BuildError::MalformedFrontMatter("site/articles/bad.md".to_string());
    assert_eq!(e.message(), "Could not parse front matter in site/articles/bad.md");
    assert_eq!(BuildError::RenderFailed.message(), "Could not render a page template");
    assert_eq!(BuildError::PrecheckFailed.message(), "Not all required folders and files exist");
    assert_eq!(
        BuildError::StagingSetupFailed.message(),
        "Could not reset the staging directory"
    );
    assert_eq!(BuildError::TemplateLoadFailed.message(), "Could not load a page template");
    assert_eq!(
        BuildError::ArticlesUnreadable.message(),
        "Could not read the articles directory"
    );
    assert_eq!(BuildError::ExternalBuildFailed.message(), "Could not build the stylesheet");
}
