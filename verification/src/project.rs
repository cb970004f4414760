//! Creating a new project: the choice of its kind, its manifest and the
//! files it starts with.

use vstd::prelude::*;

use crate::krate::{LIB_TA, MAIN_TA};
use crate::toml_doc::{
    document_tables, has_key, insert_string, insert_table, lemma_table_position_push,
    lemma_table_position_update, new_document, render_document, table_position,
    toml_document_text,
};

verus! {

/// The name of a crate's manifest file.
pub const MANIFEST_FILE: &'static str = "Antman.toml";

/// The source file a new program starts with.
pub const MAIN_CONTENT: &'static str = "func main() -> i32 {\n    0i32\n}";

/// The source file a new library starts with.
pub const LIB_CONTENT: &'static str = "func add(a: i32, b: i32) -> i32 {\n    a + b\n}";

/// The `.gitignore` a new project starts with.
pub const GITIGNORE_CONTENT: &'static str = "/target\n.DS_Store\nThumbs.db\ndesktop.ini";

/// The kind of project asked for on the command line: `--bin` or `--lib`.
#[derive(Debug, PartialEq, Eq, Structural)]
pub struct ProjectType {
    pub bin: bool,
    pub lib: bool,
}

impl ProjectType {
    /// The kind's name: `bin` when `--bin` was given, else `lib`.
    pub fn kind_name(&self) -> (r: String)
        ensures
            r@ == (if self.bin { "bin"@ } else { "lib"@ }),
    {
        if self.bin {
            "bin".to_owned()
        } else {
            "lib".to_owned()
        }
    }
}

/// Why a project cannot be created.
#[derive(Debug)]
pub enum ProjectError {
    /// The kind is neither `bin` nor `lib`; it carries the kind given.
    InvalidKind(String),
}

/// The tables of a new project's manifest: `[package]` with its name and
/// version `0.1.0`, and for a library also `[lib]` with the same entries.
pub open spec fn manifest_tables(name: Seq<char>, is_lib: bool) -> Seq<(Seq<char>, Seq<(Seq<char>, Seq<char>)>)> {
    let entries = seq![("name"@, name), ("version"@, "0.1.0"@)];
    if is_lib {
        seq![("package"@, entries), ("lib"@, entries)]
    } else {
        seq![("package"@, entries)]
    }
}

/// A new manifest records the project's name as given, character for
/// character: `[package]` comes first and each of its `name` entries holds
/// `name`, its `version` entries hold `0.1.0`; a library's manifest has
/// `[lib]` second with the same entries, a program's has no `[lib]`. Two
/// names give the same manifest tables only when they are the same name.
pub proof fn lemma_manifest_records_name(name: Seq<char>, is_lib: bool)
    ensures
        table_position(manifest_tables(name, is_lib), "package"@) == 0,
        has_key(manifest_tables(name, is_lib)[0].1, "name"@),
        forall|i: int|
            0 <= i < manifest_tables(name, is_lib)[0].1.len()
                && (#[trigger] manifest_tables(name, is_lib)[0].1[i]).0 == "name"@
                ==> manifest_tables(name, is_lib)[0].1[i].1 == name,
        forall|i: int|
            0 <= i < manifest_tables(name, is_lib)[0].1.len()
                && (#[trigger] manifest_tables(name, is_lib)[0].1[i]).0 == "version"@
                ==> manifest_tables(name, is_lib)[0].1[i].1 == "0.1.0"@,
        is_lib ==> {
            &&& table_position(manifest_tables(name, is_lib), "lib"@) == 1
            &&& manifest_tables(name, is_lib)[1].1 == manifest_tables(name, is_lib)[0].1
        },
        !is_lib ==> table_position(manifest_tables(name, is_lib), "lib"@) == -1,
        forall|other: Seq<char>| #[trigger] manifest_tables(other, is_lib) == manifest_tables(name, is_lib) ==> other == name,
{
    reveal_strlit("package");
    reveal_strlit("lib");
    reveal_strlit("name");
    reveal_strlit("version");
    let t = manifest_tables(name, is_lib);
    let entries = seq![("name"@, name), ("version"@, "0.1.0"@)];
    assert(t[0].1 =~= entries);
    assert(has_key(t[0].1, "name"@)) by {
        assert(t[0].1[0].0 == "name"@);
    }
    assert forall|i: int| 0 <= i < t[0].1.len() && (#[trigger] t[0].1[i]).0 == "name"@ implies t[0].1[i].1 == name by {
        if i == 1 {
            assert("version"@.len() != "name"@.len());
        }
    }
    assert forall|i: int| 0 <= i < t[0].1.len() && (#[trigger] t[0].1[i]).0 == "version"@ implies t[0].1[i].1 == "0.1.0"@ by {
        if i == 0 {
            assert("version"@.len() != "name"@.len());
        }
    }
    let empty = Seq::<(Seq<char>, Seq<(Seq<char>, Seq<char>)>)>::empty();
    lemma_table_position_push(empty, ("package"@, entries), "package"@);
    lemma_table_position_push(empty, ("package"@, entries), "lib"@);
    assert("package"@.len() != "lib"@.len());
    assert(empty.push(("package"@, entries)) =~= seq![("package"@, entries)]);
    if is_lib {
        lemma_table_position_push(seq![("package"@, entries)], ("lib"@, entries), "package"@);
        lemma_table_position_push(seq![("package"@, entries)], ("lib"@, entries), "lib"@);
        assert(seq![("package"@, entries)].push(("lib"@, entries)) =~= t);
    } else {
        assert(seq![("package"@, entries)] =~= t);
    }
    assert forall|other: Seq<char>| #[trigger] manifest_tables(other, is_lib) == t implies other == name by {
        assert(manifest_tables(other, is_lib)[0].1[0].1 == other);
    }
}

/// The text of the manifest of a new project called `name`.
pub fn manifest_text(name: &str, is_lib: bool) -> (text: String)
    ensures
        text@ == toml_document_text(manifest_tables(name@, is_lib)),
{
    proof {
        reveal_strlit("package");
        reveal_strlit("lib");
        reveal_strlit("name");
        reveal_strlit("version");
    }
    let ghost entries = seq![("name"@, name@), ("version"@, "0.1.0"@)];
    let mut doc = new_document();
    proof {
        assert(table_position(document_tables(doc), "package"@) == -1);
    }
    insert_table(&mut doc, "package");
    proof {
        lemma_table_position_push(Seq::empty(), ("package"@, Seq::empty()), "package"@);
        assert(!has_key(document_tables(doc)[0].1, "name"@));
    }
    insert_string(&mut doc, "package", "name", name);
    proof {
        let t = document_tables(doc);
        lemma_table_position_update(
            seq![("package"@, Seq::<(Seq<char>, Seq<char>)>::empty())],
            0,
            t[0].1,
            "package"@,
        );
        assert(t[0].1 =~= seq![("name"@, name@)]);
        assert(!has_key(t[0].1, "version"@)) by {
            assert("name"@.len() != "version"@.len());
        }
    }
    insert_string(&mut doc, "package", "version", "0.1.0");
    proof {
        let t = document_tables(doc);
        assert(t[0].1 =~= entries);
        assert(t =~= seq![("package"@, entries)]);
    }
    if is_lib {
        proof {
            assert("package"@.len() != "lib"@.len());
            lemma_table_position_push(Seq::empty(), ("package"@, entries), "lib"@);
            assert(Seq::<(Seq<char>, Seq<(Seq<char>, Seq<char>)>)>::empty().push(("package"@, entries))
                =~= seq![("package"@, entries)]);
        }
        insert_table(&mut doc, "lib");
        proof {
            let t0 = seq![("package"@, entries)];
            lemma_table_position_push(t0, ("lib"@, Seq::empty()), "lib"@);
            assert(document_tables(doc) =~= t0.push(("lib"@, Seq::empty())));
            assert(!has_key(document_tables(doc)[1].1, "name"@));
        }
        insert_string(&mut doc, "lib", "name", name);
        proof {
            let t0 = seq![("package"@, entries), ("lib"@, Seq::<(Seq<char>, Seq<char>)>::empty())];
            let t = document_tables(doc);
            lemma_table_position_push(seq![("package"@, entries)], ("lib"@, Seq::empty()), "lib"@);
            assert(seq![("package"@, entries)].push(("lib"@, Seq::<(Seq<char>, Seq<char>)>::empty())) =~= t0);
            lemma_table_position_update(t0, 1, t[1].1, "lib"@);
            assert(t[1].1 =~= seq![("name"@, name@)]);
            assert(!has_key(t[1].1, "version"@)) by {
                assert("name"@.len() != "version"@.len());
            }
        }
        insert_string(&mut doc, "lib", "version", "0.1.0");
    }
    assert(document_tables(doc) =~= manifest_tables(name@, is_lib));
    render_document(&doc)
}

/// The files a new project starts with, besides its directories.
#[derive(Debug)]
pub struct ProjectFiles {
    /// The text of `Antman.toml`.
    pub manifest: String,
    /// The name of the source file under `src`.
    pub source_file: String,
    /// The text of that source file.
    pub source_content: String,
    /// The text of `.gitignore`.
    pub gitignore: String,
}

fn text_eq(a: &str, b: &str) -> (r: bool)
    ensures
        r == (a@ == b@),
{
    a.to_owned() == b.to_owned()
}

/// The files of a new project called `project_name` of kind `project_kind`:
/// refused unless the kind is `bin` or `lib`.
pub fn create_project_plan(project_name: &str, project_kind: &str) -> (r: Result<ProjectFiles, ProjectError>)
    ensures
        r is Err <==> (project_kind@ != "bin"@ && project_kind@ != "lib"@),
        r matches Err(ProjectError::InvalidKind(k)) ==> k@ == project_kind@,
        r matches Ok(f) ==> {
            let is_lib = project_kind@ == "lib"@;
            &&& f.manifest@ == toml_document_text(manifest_tables(project_name@, is_lib))
            &&& f.source_file@ == (if is_lib { LIB_TA@ } else { MAIN_TA@ })
            &&& f.source_content@ == (if is_lib { LIB_CONTENT@ } else { MAIN_CONTENT@ })
            &&& f.gitignore@ == GITIGNORE_CONTENT@
        },
{
    if !text_eq(project_kind, "bin") && !text_eq(project_kind, "lib") {
        return Err(ProjectError::InvalidKind(project_kind.to_owned()));
    }
    let is_lib = text_eq(project_kind, "lib");
    let manifest = manifest_text(project_name, is_lib);
    Ok(
        ProjectFiles {
            manifest,
            source_file: if is_lib { LIB_TA.to_owned() } else { MAIN_TA.to_owned() },
            source_content: if is_lib { LIB_CONTENT.to_owned() } else { MAIN_CONTENT.to_owned() },
            gitignore: GITIGNORE_CONTENT.to_owned(),
        },
    )
}

} // verus!
