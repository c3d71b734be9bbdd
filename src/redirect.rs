//! Output redirection: `> file` or `1> file` among the arguments, and where
//! a result's text goes.
use vstd::prelude::*;
use vstd::string::StrSliceExecFns;
use crate::dispatch::CommandResult;
use crate::text::{same_text, texts};

verus! {

/// A redirection operator.
pub open spec fn is_redirect_op(w: Seq<char>) -> bool {
    w == ">"@ || w == "1>"@
}

/// `i` is the first redirection operator of `ws`, and a target follows it.
pub open spec fn redirect_at(ws: Seq<Seq<char>>, i: int) -> bool {
    &&& 0 <= i
    &&& i + 1 < ws.len()
    &&& is_redirect_op(ws[i])
    &&& forall|j: int| 0 <= j < i ==> !is_redirect_op(#[trigger] ws[j])
}

/// Arguments with a redirection taken out, and the file it names.
pub struct Redirection {
    pub args: Vec<String>,
    pub target: String,
}

/// Whether `w` is a redirection operator.
pub fn is_redirect_token(w: &str) -> (r: bool)
    ensures
        r == is_redirect_op(w@),
{
    same_text(w, ">") || same_text(w, "1>")
}

/// Finds the first redirection operator of `args`; where a target follows
/// it, returns the arguments without the two and the target.
pub fn split_redirect(args: &[String]) -> (r: Option<Redirection>)
    ensures
        r is None <==> !exists|i: int| redirect_at(texts(args@), i),
        r is Some ==> exists|i: int|
            #![trigger redirect_at(texts(args@), i)]
            redirect_at(texts(args@), i) && r->0.target@ == args@[i + 1]@
                && texts(r->0.args@) == texts(args@).subrange(0, i) + texts(args@).subrange(i + 2, args@.len() as int),
{
    let n = args.len();
    let ghost ws = texts(args@);
    let mut i: usize = 0;
    while i < n
        invariant
            n == args@.len(),
            ws == texts(args@),
            i <= n,
            forall|j: int| 0 <= j < i ==> !is_redirect_op(#[trigger] ws[j]),
        decreases n - i,
    {
        if is_redirect_token(args[i].as_str()) {
            assert(ws[i as int] == args@[i as int]@);
            if i + 1 < n {
                let mut rest: Vec<String> = Vec::new();
                let mut k: usize = 0;
                while k < n
                    invariant
                        n == args@.len(),
                        ws == texts(args@),
                        i + 1 < n,
                        is_redirect_op(ws[i as int]),
                        forall|j: int| 0 <= j < i ==> !is_redirect_op(#[trigger] ws[j]),
                        k <= n,
                        k <= i ==> texts(rest@) == ws.subrange(0, k as int),
                        k > i + 1 ==> texts(rest@) == ws.subrange(0, i as int) + ws.subrange(i + 2, k as int),
                        k == i + 1 ==> texts(rest@) == ws.subrange(0, i as int),
                    decreases n - k,
                {
                    let ghost prev = texts(rest@);
                    if k != i && k != i + 1 {
                        rest.push(args[k].clone());
                        assert(texts(rest@) =~= prev.push(ws[k as int]));
                    }
                    assert(ws.subrange(0, k + 1) =~= ws.subrange(0, k as int).push(ws[k as int]));
                    if k > i + 1 {
                        assert(ws.subrange(i + 2, k + 1) =~= ws.subrange(i + 2, k as int).push(ws[k as int]));
                    } else if k == i + 1 {
                        assert(ws.subrange(i + 2, k + 1) =~= Seq::<Seq<char>>::empty());
                        assert(ws.subrange(0, i as int) + ws.subrange(i + 2, k + 1) =~= ws.subrange(0, i as int));
                    }
                    k = k + 1;
                }
                assert(redirect_at(ws, i as int));
                let target = args[i + 1].clone();
                return Some(Redirection { args: rest, target });
            } else {
                assert forall|j: int| redirect_at(ws, j) implies false by {
                    if j < i {
                        assert(!is_redirect_op(ws[j]));
                    } else if j > i {
                        assert(!is_redirect_op(ws[i as int]));
                    }
                }
                return None;
            }
        }
        assert(ws[i as int] == args@[i as int]@);
        i = i + 1;
    }
    None
}

/// Where the texts of a result go.
pub struct Routing {
    /// Printed on standard output, with a newline after it.
    pub to_stdout: Option<String>,
    /// Written as it is to the redirection target.
    pub to_file: Option<String>,
    /// Printed on standard error.
    pub to_stderr: Option<String>,
}

/// Routes a result: non-empty standard output to the redirection target
/// where one was set up, else to the terminal; non-empty error text to
/// standard error when the status is a failure.
pub fn route(r: CommandResult, redirected: bool) -> (o: Routing)
    ensures
        o.to_stdout is Some <==> (!redirected && r.stdout_text@.len() > 0),
        o.to_file is Some <==> (redirected && r.stdout_text@.len() > 0),
        o.to_stderr is Some <==> (r.status != 0 && r.stderr_text@.len() > 0),
        o.to_stdout is Some ==> o.to_stdout->0@ == r.stdout_text@,
        o.to_file is Some ==> o.to_file->0@ == r.stdout_text@,
        o.to_stderr is Some ==> o.to_stderr->0@ == r.stderr_text@,
{
    let has_out = r.stdout_text.as_str().unicode_len() > 0;
    let has_err = r.status != 0 && r.stderr_text.as_str().unicode_len() > 0;
    let CommandResult { status: _, stdout_text, stderr_text } = r;
    let to_stderr = if has_err { Some(stderr_text) } else { None };
    if !has_out {
        Routing { to_stdout: None, to_file: None, to_stderr }
    } else if redirected {
        Routing { to_stdout: None, to_file: Some(stdout_text), to_stderr }
    } else {
        Routing { to_stdout: Some(stdout_text), to_file: None, to_stderr }
    }
}

} // verus!
