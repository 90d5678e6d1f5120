//! The `omarchy plugin` command lines that each action runs, and the
//! messages that describe a failed run. Running them is the caller's part.
use vstd::prelude::*;
use crate::text::{join, joined, texts, trim, trimmed};

verus! {

fn word(s: &str) -> (r: String)
    ensures
        r@ == s@,
{
    s.to_owned()
}

/// Arguments that list the installed plugins as JSON.
pub fn catalog() -> (args: Vec<String>)
    ensures
        texts(args@) == seq!["plugin"@, "catalog"@],
{
    let mut args: Vec<String> = Vec::new();
    args.push(word("plugin"));
    args.push(word("catalog"));
    assert(texts(args@) =~= seq!["plugin"@, "catalog"@]);
    args
}

/// Arguments that enable plugin `id`, at `placement` when one is given.
pub fn enable(id: &str, placement: Option<&str>) -> (args: Vec<String>)
    ensures
        texts(args@) == match placement {
            Some(p) => seq!["plugin"@, "enable"@, id@, p@],
            None => seq!["plugin"@, "enable"@, id@],
        },
{
    let mut args: Vec<String> = Vec::new();
    args.push(word("plugin"));
    args.push(word("enable"));
    args.push(word(id));
    match placement {
        Some(p) => {
            args.push(word(p));
            assert(texts(args@) =~= seq!["plugin"@, "enable"@, id@, p@]);
        },
        None => {
            assert(texts(args@) =~= seq!["plugin"@, "enable"@, id@]);
        },
    }
    args
}

/// Arguments that disable plugin `id`.
pub fn disable(id: &str) -> (args: Vec<String>)
    ensures
        texts(args@) == seq!["plugin"@, "disable"@, id@],
{
    let mut args: Vec<String> = Vec::new();
    args.push(word("plugin"));
    args.push(word("disable"));
    args.push(word(id));
    assert(texts(args@) =~= seq!["plugin"@, "disable"@, id@]);
    args
}

/// Arguments that install the plugin at `git_url` without asking, enabling it when asked to.
pub fn add(git_url: &str, enable: bool) -> (args: Vec<String>)
    ensures
        texts(args@) == if enable {
            seq!["plugin"@, "add"@, git_url@, "--yes"@, "--enable"@]
        } else {
            seq!["plugin"@, "add"@, git_url@, "--yes"@]
        },
{
    let mut args: Vec<String> = Vec::new();
    args.push(word("plugin"));
    args.push(word("add"));
    args.push(word(git_url));
    args.push(word("--yes"));
    if enable {
        args.push(word("--enable"));
        assert(texts(args@) =~= seq!["plugin"@, "add"@, git_url@, "--yes"@, "--enable"@]);
    } else {
        assert(texts(args@) =~= seq!["plugin"@, "add"@, git_url@, "--yes"@]);
    }
    args
}

/// Arguments that remove plugin `id` without asking.
pub fn remove(id: &str) -> (args: Vec<String>)
    ensures
        texts(args@) == seq!["plugin"@, "remove"@, id@, "--yes"@],
{
    let mut args: Vec<String> = Vec::new();
    args.push(word("plugin"));
    args.push(word("remove"));
    args.push(word(id));
    args.push(word("--yes"));
    assert(texts(args@) =~= seq!["plugin"@, "remove"@, id@, "--yes"@]);
    args
}

/// Arguments that update plugin `id`, or every plugin, without asking.
pub fn update(id: Option<&str>) -> (args: Vec<String>)
    ensures
        texts(args@) == match id {
            Some(i) => seq!["plugin"@, "update"@, i@, "--yes"@],
            None => seq!["plugin"@, "update"@, "--yes"@],
        },
{
    let mut args: Vec<String> = Vec::new();
    args.push(word("plugin"));
    args.push(word("update"));
    match id {
        Some(i) => {
            args.push(word(i));
            args.push(word("--yes"));
            assert(texts(args@) =~= seq!["plugin"@, "update"@, i@, "--yes"@]);
        },
        None => {
            args.push(word("--yes"));
            assert(texts(args@) =~= seq!["plugin"@, "update"@, "--yes"@]);
        },
    }
    args
}

/// The message for a command that could not be started.
pub fn launch_failure(args: &Vec<String>) -> (m: String)
    ensures
        m@ == "failed to execute `omarchy "@ + joined(texts(args@), " "@) + "`"@,
{
    let j = join(args, " ");
    word("failed to execute `omarchy ").concat(j.as_str()).concat("`")
}

/// The message for a command that exited unsuccessfully, quoting its
/// standard error without surrounding whitespace.
pub fn exit_failure(args: &Vec<String>, stderr: &str) -> (m: String)
    ensures
        m@ == "`omarchy "@ + joined(texts(args@), " "@) + "` failed: "@ + trimmed(stderr@),
{
    let j = join(args, " ");
    let t = trim(stderr);
    word("`omarchy ").concat(j.as_str()).concat("` failed: ").concat(t.as_str())
}

} // verus!
