//! Files written into a freshly created project: its `main.rs`, the
//! loader module and its `Cargo.toml`, made from templates with
//! placeholders.

use vstd::prelude::*;

use crate::text::{occurs_at, replaced, replace_all, matches_at};

verus! {

/// `tok` occurs in `s` delimited by spaces or by the ends of `s`. For a
/// `tok` without spaces this says that `tok` is one of the pieces of `s`
/// split at every space.
pub open spec fn delimited_token(s: Seq<char>, tok: Seq<char>) -> bool {
    exists|i: int|
        #![trigger occurs_at(s, tok, i)]
        occurs_at(s, tok, i) && (i == 0 || s[i - 1] == ' ') && (i + tok.len() == s.len() || s[i
            + tok.len()] == ' ')
}

/// The text in which placeholders are looked for: line breaks become
/// spaces, commas are dropped, and closing braces too when asked.
pub open spec fn token_view(template: Seq<char>, strip_braces: bool) -> Seq<char> {
    let a = replaced(replaced(template, "\n"@, " "@), ","@, ""@);
    if strip_braces {
        replaced(a, "}"@, ""@)
    } else {
        a
    }
}

/// Whether `tok` occurs in `s` delimited by spaces or by its ends.
fn has_delimited_token(s: &str, tok: &str) -> (found: bool)
    ensures
        found == delimited_token(s@, tok@),
{
    let n = s.unicode_len();
    let m = tok.unicode_len();
    if m > n {
        assert forall|i: int| !occurs_at(s@, tok@, i) by {}
        return false;
    }
    let mut i: usize = 0;
    loop
        invariant
            n == s@.len(),
            m == tok@.len(),
            m <= n,
            i <= n - m,
            forall|k: int|
                #![trigger occurs_at(s@, tok@, k)]
                0 <= k < i ==> !(occurs_at(s@, tok@, k) && (k == 0 || s@[k - 1] == ' ') && (k + m
                    == n || s@[k + m] == ' ')),
        ensures
            forall|k: int|
                #![trigger occurs_at(s@, tok@, k)]
                0 <= k <= n - m ==> !(occurs_at(s@, tok@, k) && (k == 0 || s@[k - 1] == ' ') && (k
                    + m == n || s@[k + m] == ' ')),
        decreases n - m - i,
    {
        if matches_at(s, tok, i) {
            let before = i == 0 || s.get_char(i - 1) == ' ';
            let after = i + m == n || s.get_char(i + m) == ' ';
            if before && after {
                assert(occurs_at(s@, tok@, i as int));
                return true;
            }
        }
        if i == n - m {
            break;
        }
        i += 1;
    }
    false
}

/// Whether `tok` occurs delimited by spaces (or by the ends) in `template`
/// once line breaks become spaces and commas and (when asked) closing
/// braces are taken out; for a `tok` without spaces, whether it is one of
/// the pieces of that text split at every space.
pub fn template_has_token(template: &str, tok: &str, strip_braces: bool) -> (found: bool)
    ensures
        found == delimited_token(token_view(template@, strip_braces), tok@),
{
    let a = replace_all(template, "\n", " ");
    let b = replace_all(a.as_str(), ",", "");
    if strip_braces {
        let c = replace_all(b.as_str(), "}", "");
        has_delimited_token(c.as_str(), tok)
    } else {
        has_delimited_token(b.as_str(), tok)
    }
}

/// Whether the templates hold the placeholders they are filled through:
/// the project name in the `main.rs` template, and the project name and
/// the library path in the `Cargo.toml` template.
pub fn templates_have_placeholders(main_template: &str, cargo_template: &str) -> (valid: bool)
    ensures
        valid == (delimited_token(token_view(main_template@, false), "<project_name>"@)
            && delimited_token(token_view(cargo_template@, true), "<project_name>"@)
            && delimited_token(token_view(cargo_template@, true), "<library>"@)),
{
    template_has_token(main_template, "<project_name>", false) && template_has_token(
        cargo_template,
        "<project_name>",
        true,
    ) && template_has_token(cargo_template, "<library>", true)
}

/// Paths and contents of the files of a new project.
pub struct NewProjectFiles {
    pub main_rs_path: String,
    pub main_rs: String,
    pub blue_flame_rs_path: String,
    pub cargo_toml_path: String,
    pub cargo_toml: String,
}

fn join(a: &str, b: &str) -> (s: String)
    ensures
        s@ == a@ + b@,
{
    let mut s = String::from_str(a);
    s.append(b);
    s
}

/// The files of a new project in `project_dir`: `src/main.rs` is the main
/// template with the project name filled in, `src/blue_flame.rs` is the
/// loader module, and `src/../Cargo.toml` is the Cargo template with the
/// name typed for `cargo new` and the editor's library path filled in.
pub fn new_project_files(
    project_dir: &str,
    project_name: &str,
    new_project_label: &str,
    library_path: &str,
    main_template: &str,
    cargo_template: &str,
) -> (files: NewProjectFiles)
    ensures
        files.main_rs_path@ == project_dir@ + "/src"@ + "/main.rs"@,
        files.main_rs@ == replaced(main_template@, "<project_name>"@, project_name@),
        files.blue_flame_rs_path@ == project_dir@ + "/src"@ + "/blue_flame.rs"@,
        files.cargo_toml_path@ == project_dir@ + "/src"@ + "/../Cargo.toml"@,
        files.cargo_toml@ == replaced(
            replaced(cargo_template@, "<project_name>"@, new_project_label@),
            "<library>"@,
            library_path@,
        ),
{
    let dir_src = join(project_dir, "/src");
    let main_rs = replace_all(main_template, "<project_name>", project_name);
    let cargo_named = replace_all(cargo_template, "<project_name>", new_project_label);
    let cargo_toml = replace_all(cargo_named.as_str(), "<library>", library_path);
    NewProjectFiles {
        main_rs_path: join(dir_src.as_str(), "/main.rs"),
        main_rs,
        blue_flame_rs_path: join(dir_src.as_str(), "/blue_flame.rs"),
        cargo_toml_path: join(dir_src.as_str(), "/../Cargo.toml"),
        cargo_toml,
    }
}

} // verus!
