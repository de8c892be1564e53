//! Names of the source and staging directories and the fixed files the
//! build reads, and helpers that join them into relative paths.

use vstd::prelude::*;

verus! {

/// Directory holding all build inputs.
pub fn base_directory() -> (r: &'static str)
    ensures
        r@ == "site"@,
{
    "site"
}

/// Directory the build writes its outputs into.
pub fn staging_directory() -> (r: &'static str)
    ensures
        r@ == "staging"@,
{
    "staging"
}

/// Subdirectory of the base directory holding the page templates.
pub fn templates_directory() -> (r: &'static str)
    ensures
        r@ == "templates"@,
{
    "templates"
}

/// Subdirectory of the base directory holding the stylesheet sources.
pub fn style_directory() -> (r: &'static str)
    ensures
        r@ == "style"@,
{
    "style"
}

/// Subdirectory (of both the base and the staging directory) holding images.
pub fn images_directory() -> (r: &'static str)
    ensures
        r@ == "images"@,
{
    "images"
}

/// Subdirectory (of both the base and the staging directory) holding articles.
pub fn articles_directory() -> (r: &'static str)
    ensures
        r@ == "articles"@,
{
    "articles"
}

/// The path of a file inside the base directory, given as
/// (subdirectory, file name).
pub fn get_file_path(file: (&str, &str)) -> (r: String)
    ensures
        r@ == "site/"@ + file.0@ + "/"@ + file.1@,
{
    let mut r = "site/".to_owned();
    r.append(file.0);
    r.append("/");
    r.append(file.1);
    r
}

/// The path of a file inside the staging directory, given as
/// (subdirectory, file name).
pub fn get_staging_file_path(file: (&str, &str)) -> (r: String)
    ensures
        r@ == "staging/"@ + file.0@ + "/"@ + file.1@,
{
    let mut r = "staging/".to_owned();
    r.append(file.0);
    r.append("/");
    r.append(file.1);
    r
}

/// The path of a subdirectory of the base directory.
pub fn get_folder_path(folder: &str) -> (r: String)
    ensures
        r@ == "site/"@ + folder@,
{
    let mut r = "site/".to_owned();
    r.append(folder);
    r
}

/// The path of a subdirectory of the staging directory.
pub fn get_staging_folder_path(folder: &str) -> (r: String)
    ensures
        r@ == "staging/"@ + folder@,
{
    let mut r = "staging/".to_owned();
    r.append(folder);
    r
}

/// The folders that must exist before a build starts.
pub fn folders() -> (r: Vec<String>)
    ensures
        r@.len() == 4,
        r@[0]@ == "site/templates"@,
        r@[1]@ == "site/style"@,
        r@[2]@ == "site/images"@,
        r@[3]@ == "site/articles"@,
{
    let mut r: Vec<String> = Vec::new();
    r.push(get_folder_path(templates_directory()));
    r.push(get_folder_path(style_directory()));
    r.push(get_folder_path(images_directory()));
    r.push(get_folder_path(articles_directory()));
    proof {
        reveal_strlit("site/");
        reveal_strlit("templates");
        reveal_strlit("style");
        reveal_strlit("images");
        reveal_strlit("articles");
        reveal_strlit("site/templates");
        reveal_strlit("site/style");
        reveal_strlit("site/images");
        reveal_strlit("site/articles");
        assert(r@[0]@ =~= "site/templates"@);
        assert(r@[1]@ =~= "site/style"@);
        assert(r@[2]@ =~= "site/images"@);
        assert(r@[3]@ =~= "site/articles"@);
    }
    r
}

/// The files that must exist before a build starts: the four page
/// templates, the stylesheet build configuration, and the stylesheet.
pub fn files() -> (r: Vec<String>)
    ensures
        r@.len() == 6,
        r@[0]@ == "site/templates/main.hbs"@,
        r@[1]@ == "site/templates/article.hbs"@,
        r@[2]@ == "site/templates/card.hbs"@,
        r@[3]@ == "site/templates/list.hbs"@,
        r@[4]@ == "site/style/tailwind.config.js"@,
        r@[5]@ == "site/style/style.css"@,
{
    let mut r: Vec<String> = Vec::new();
    r.push(get_file_path((templates_directory(), "main.hbs")));
    r.push(get_file_path((templates_directory(), "article.hbs")));
    r.push(get_file_path((templates_directory(), "card.hbs")));
    r.push(get_file_path((templates_directory(), "list.hbs")));
    r.push(get_file_path((style_directory(), "tailwind.config.js")));
    r.push(get_file_path((style_directory(), "style.css")));
    proof {
        reveal_strlit("site/");
        reveal_strlit("/");
        reveal_strlit("templates");
        reveal_strlit("style");
        reveal_strlit("main.hbs");
        reveal_strlit("article.hbs");
        reveal_strlit("card.hbs");
        reveal_strlit("list.hbs");
        reveal_strlit("tailwind.config.js");
        reveal_strlit("style.css");
        reveal_strlit("site/templates/main.hbs");
        reveal_strlit("site/templates/article.hbs");
        reveal_strlit("site/templates/card.hbs");
        reveal_strlit("site/templates/list.hbs");
        reveal_strlit("site/style/tailwind.config.js");
        reveal_strlit("site/style/style.css");
        assert(r@[0]@ =~= "site/templates/main.hbs"@);
        assert(r@[1]@ =~= "site/templates/article.hbs"@);
        assert(r@[2]@ =~= "site/templates/card.hbs"@);
        assert(r@[3]@ =~= "site/templates/list.hbs"@);
        assert(r@[4]@ =~= "site/style/tailwind.config.js"@);
        assert(r@[5]@ =~= "site/style/style.css"@);
    }
    r
}

} // verus!
