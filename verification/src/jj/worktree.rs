//! Creating and removing jj workspaces.
use vstd::prelude::*;

use crate::bytes;
use crate::jj::query::push_path;
use crate::jj::repo;
use crate::jj::repo::is_safe_workspace_name;
use crate::jj::status::Answer;
use crate::paths;
use crate::paths::FilePath;
use crate::text;
use crate::text::{concat2, concat3, no_words, push_word};

verus! {

/// How to create a workspace: make the directory above it, then run jj.
#[derive(Debug)]
pub struct WorkspacePlan {
    /// Where the workspace will be.
    pub workspace_path: FilePath,
    /// The directory that must exist first.
    pub make_dir: Option<FilePath>,
    /// The arguments for jj.
    pub args: Vec<String>,
}

#[verifier::ext_equal]
pub struct WorkspacePlanView {
    pub workspace_path: Seq<u8>,
    pub make_dir: Option<Seq<u8>>,
    pub args: Seq<Seq<char>>,
}

impl View for WorkspacePlan {
    type V = WorkspacePlanView;

    open spec fn view(&self) -> WorkspacePlanView {
        WorkspacePlanView {
            workspace_path: self.workspace_path@,
            make_dir: paths::opt_view(self.make_dir),
            args: text::strings_view(self.args@),
        }
    }
}

/// Asks jj to add the workspace.
pub open spec fn add_command(repo: Seq<u8>, name: Seq<char>, path: Seq<u8>) -> Seq<Seq<char>> {
    seq![
        "-R"@,
        bytes::text_of(repo),
        "workspace"@,
        "add"@,
        "--name"@,
        name,
        bytes::text_of(path),
    ]
}

/// Asks jj to forget the workspace.
pub open spec fn forget_command(repo: Seq<u8>, name: Seq<char>) -> Seq<Seq<char>> {
    seq!["-R"@, bytes::text_of(repo), "workspace"@, "forget"@, name]
}

/// How to create the workspace `name` beside the repository, or why that is
/// refused.
pub open spec fn creation(repo: Seq<u8>, name: Seq<char>) -> Result<
    WorkspacePlanView,
    Seq<char>,
> {
    if !repo::is_safe_name(name) {
        Err("Invalid workspace name: "@ + text::debug_form(name))
    } else {
        match paths::parent_of(repo) {
            None => Err("Repo path has no parent"@),
            Some(dir) => {
                let path = paths::join_text_of(dir, name);
                Ok(
                    WorkspacePlanView {
                        workspace_path: path,
                        make_dir: paths::parent_of(path),
                        args: add_command(repo, name, path),
                    },
                )
            },
        }
    }
}

/// The plan or the error text of an outcome.
pub open spec fn plan_view(r: Result<WorkspacePlan, String>) -> Result<
    WorkspacePlanView,
    Seq<char>,
> {
    match r {
        Ok(p) => Ok(p@),
        Err(e) => Err(e@),
    }
}

/// What to tell the user about a name that is refused, given its `{:?}` form.
pub fn invalid_name_message(debug_form: &str) -> (r: String)
    ensures
        r@ == "Invalid workspace name: "@ + debug_form@,
{
    concat2("Invalid workspace name: ", debug_form)
}

/// How to create the workspace `name` in a sibling directory of the
/// repository. A name that is not safe is refused before anything is run.
pub fn create_workspace(repo_path: &FilePath, name: &str) -> (r: Result<WorkspacePlan, String>)
    ensures
        plan_view(r) == creation(repo_path@, name@),
{
    if !is_safe_workspace_name(name) {
        let shown = text::debug_text(name);
        return Err(invalid_name_message(shown.as_str()));
    }
    let dir = match paths::parent(repo_path) {
        Some(d) => d,
        None => {
            return Err("Repo path has no parent".to_owned());
        },
    };
    let workspace_path = paths::join_text(&dir, name);
    let make_dir = paths::parent(&workspace_path);
    let mut args = no_words();
    push_word(&mut args, "-R");
    push_path(&mut args, repo_path);
    push_word(&mut args, "workspace");
    push_word(&mut args, "add");
    push_word(&mut args, "--name");
    push_word(&mut args, name);
    push_path(&mut args, &workspace_path);
    assert(text::strings_view(args@) =~= add_command(repo_path@, name@, workspace_path@));
    Ok(WorkspacePlan { workspace_path, make_dir, args })
}

/// What to tell the user when the directory above a workspace cannot be made,
/// given the workspace path's `{:?}` form.
pub fn directory_failed_message(debug_form: &str) -> (r: String)
    ensures
        r@ == "Failed to create parent directory for "@ + debug_form@,
{
    concat2("Failed to create parent directory for ", debug_form)
}

/// What carrying out a plan comes to: the path of the new workspace, or why
/// there is none. jj is run only when the directory was made.
pub fn created(plan: WorkspacePlan, directory_made: bool, answer: &Answer) -> (r: Result<
    FilePath,
    String,
>)
    ensures
        paths::outcome_view(r) == (if !directory_made {
            Err("Failed to create parent directory for "@ + paths::debug_form(plan@.workspace_path))
        } else {
            match text::outcome_view(*answer) {
                Ok(_) => Ok(plan@.workspace_path),
                Err(e) => Err(e),
            }
        }),
{
    if !directory_made {
        let shown = paths::debug_path(&plan.workspace_path);
        return Err(directory_failed_message(shown.as_str()));
    }
    match answer {
        Ok(_) => Ok(plan.workspace_path),
        Err(e) => Err(e.clone()),
    }
}

/// The arguments that ask jj to forget the workspace.
pub fn forget_args(repo_path: &FilePath, name: &str) -> (r: Vec<String>)
    ensures
        text::strings_view(r@) == forget_command(repo_path@, name@),
{
    let mut r = no_words();
    push_word(&mut r, "-R");
    push_path(&mut r, repo_path);
    push_word(&mut r, "workspace");
    push_word(&mut r, "forget");
    push_word(&mut r, name);
    assert(text::strings_view(r@) =~= forget_command(repo_path@, name@));
    r
}

/// What follows an attempt to forget the workspace: the directory to delete,
/// or the failure, after which the directory is left alone. Once jj has
/// forgotten the workspace the removal has succeeded, whether or not the
/// directory can be deleted.
pub fn remove_workspace(workspace_path: &FilePath, name: &str, forgotten: &Answer) -> (r: Result<
    FilePath,
    String,
>)
    ensures
        paths::outcome_view(r) == match *forgotten {
            Ok(_) => Ok(workspace_path@),
            Err(_) => Err("Failed to forget jj workspace '"@ + name@ + "'"@),
        },
{
    match forgotten {
        Ok(_) => Ok(workspace_path.clone()),
        Err(_) => Err(concat3("Failed to forget jj workspace '", name, "'")),
    }
}

/// A plan never leaves the directory of the repository: its path is that
/// directory followed by the parts of the name, none of which leads back up.
pub proof fn plan_stays_beside_the_repository(repo: Seq<u8>, name: Seq<char>)
    requires
        creation(repo, name) is Ok,
    ensures
        paths::parent_of(repo) is Some,
        paths::segments(creation(repo, name)->Ok_0.workspace_path) == paths::segments(
            paths::parent_of(repo)->0,
        ) + paths::parts_of(name),
        forall|i: int|
            0 <= i < paths::parts_of(name).len() ==> !paths::leads_up(
                #[trigger] paths::parts_of(name)[i],
            ),
{
    repo::safe_name_stays_below(paths::parent_of(repo)->0, name);
}

/// A workspace is created exactly under a safe name and beside a repository that
/// has a directory above it; jj is asked, in that repository, to add a workspace
/// of that name at that place, below a directory that is made first.
pub proof fn plans_add_the_named_workspace(repo: Seq<u8>, name: Seq<char>)
    ensures
        creation(repo, name) is Ok <==> repo::is_safe_name(name) && paths::parent_of(repo) is Some,
        creation(repo, name) matches Ok(plan) ==> {
            &&& plan.workspace_path == paths::join_text_of(paths::parent_of(repo)->0, name)
            &&& plan.make_dir == paths::parent_of(plan.workspace_path)
            &&& plan.args.len() == 7
            &&& plan.args[0] == seq!['-', 'R']
            &&& plan.args[1] == bytes::text_of(repo)
            &&& plan.args[2] == "workspace"@
            &&& plan.args[3] == seq!['a', 'd', 'd']
            &&& plan.args[4] == "--name"@
            &&& plan.args[5] == name
            &&& plan.args[6] == bytes::text_of(plan.workspace_path)
        },
{
    reveal_strlit("-R");
    reveal_strlit("add");
    assert("-R"@ =~= seq!['-', 'R']);
    assert("add"@ =~= seq!['a', 'd', 'd']);
}

/// A workspace is forgotten in the repository that it belongs to, by its name.
pub proof fn workspaces_are_forgotten_by_name(repo: Seq<u8>, name: Seq<char>)
    ensures
        forget_command(repo, name).len() == 5,
        forget_command(repo, name)[0] == seq!['-', 'R'],
        forget_command(repo, name)[1] == bytes::text_of(repo),
        forget_command(repo, name)[2] == "workspace"@,
        forget_command(repo, name)[3] == seq!['f', 'o', 'r', 'g', 'e', 't'],
        forget_command(repo, name)[4] == name,
{
    reveal_strlit("-R");
    reveal_strlit("forget");
    assert("-R"@ =~= seq!['-', 'R']);
    assert("forget"@ =~= seq!['f', 'o', 'r', 'g', 'e', 't']);
}

} // verus!
