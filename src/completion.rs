//! Tab completion of command names and paths.
use vstd::prelude::*;
use vstd::string::{StrSliceExecFns, StringExecFns};
use crate::text::texts;
use crate::text::{is_blank, is_blank_char, spaced, join_spaced, has_prefix, same_text, joined};
use crate::order::{first_difference, lemma_difference_unique, sorted_texts, sort_texts};

verus! {

/// The maximal runs of non-whitespace characters of `s`, in order.
pub open spec fn blank_words(s: Seq<char>) -> Seq<Seq<char>>
    decreases s.len(),
{
    if s.len() == 0 {
        Seq::empty()
    } else {
        let w = blank_words(s.drop_last());
        let c = s.last();
        if is_blank(c) {
            w
        } else if s.len() == 1 || is_blank(s[s.len() - 2]) {
            w.push(seq![c])
        } else {
            w.update(w.len() - 1, w.last().push(c))
        }
    }
}

proof fn lemma_words_after_word(s: Seq<char>)
    requires
        s.len() > 0,
        !is_blank(s.last()),
    ensures
        blank_words(s).len() > 0,
    decreases s.len(),
{
    let w = blank_words(s.drop_last());
    if !(s.len() == 1 || is_blank(s[s.len() - 2])) {
        assert(s.drop_last().last() == s[s.len() - 2]);
        lemma_words_after_word(s.drop_last());
    }
}

/// The whitespace-separated words of `s`.
pub fn split_blank_words(s: &str) -> (r: Vec<String>)
    ensures
        texts(r@) == blank_words(s@),
{
    let n = s.unicode_len();
    let mut r: Vec<String> = Vec::new();
    let mut start: usize = 0;
    let mut inside = false;
    let mut i: usize = 0;
    assert(texts(r@) =~= blank_words(s@.subrange(0, 0)));
    while i < n
        invariant
            n == s@.len(),
            start <= i <= n,
            inside <==> (i > 0 && !is_blank(s@[i - 1])),
            inside ==> start < i && texts(r@).push(s@.subrange(start as int, i as int)) == blank_words(s@.subrange(0, i as int)),
            inside ==> forall|j: int| start <= j < i ==> !is_blank(#[trigger] s@[j]),
            inside ==> (start == 0 || is_blank(s@[start - 1])),
            !inside ==> texts(r@) == blank_words(s@.subrange(0, i as int)),
        decreases n - i,
    {
        let ghost pre = s@.subrange(0, i + 1);
        let ghost old_r = texts(r@);
        let ghost w = blank_words(s@.subrange(0, i as int));
        assert(pre.drop_last() =~= s@.subrange(0, i as int));
        assert(pre.last() == s@[i as int]);
        let c = s.get_char(i);
        if is_blank_char(c) {
            if inside {
                let piece = s.substring_char(start, i);
                r.push(String::from_str(piece));
                assert(texts(r@) =~= old_r.push(s@.subrange(start as int, i as int)));
            }
            inside = false;
        } else {
            if !inside {
                start = i;
                assert(s@.subrange(start as int, i + 1) =~= seq![c]);
                if i > 0 {
                    assert(pre[i - 1] == s@[i - 1]);
                }
            } else {
                assert(pre[i - 1] == s@[i - 1]);
                assert(s@.subrange(start as int, i + 1) =~= s@.subrange(start as int, i as int).push(c));
            }
            inside = true;
        }
        i = i + 1;
    }
    assert(s@.subrange(0, n as int) =~= s@);
    if inside {
        let ghost old_r = texts(r@);
        let piece = s.substring_char(start, n);
        r.push(String::from_str(piece));
        assert(texts(r@) =~= old_r.push(s@.subrange(start as int, n as int)));
    }
    r
}

/// What a completion request asks for.
pub enum CompletionPlan {
    /// The cursor is not at the end of the line: the line is offered back as it is.
    Unchanged,
    /// There is nothing to complete.
    Nothing,
    /// A command name that starts with `prefix`.
    Command { prefix: String },
    /// A path: `before` holds the words before the last one, joined by spaces,
    /// and `last` the last word.
    Path { before: String, last: String },
}

/// The words of a line as completion sees them: a line that ends in a space
/// gets an empty word at its end.
pub open spec fn request_words(line: Seq<char>) -> Seq<Seq<char>> {
    if line.len() > 0 && line.last() == ' ' {
        blank_words(line).push(Seq::empty())
    } else {
        blank_words(line)
    }
}

/// Whether a word reads as an option (`-x`).
pub open spec fn is_option(w: Seq<char>) -> bool {
    w.len() > 0 && w[0] == '-'
}

/// Decides what to complete for `line` with the cursor at byte offset `pos`.
pub fn plan_completion(line: &str, pos: usize) -> (r: CompletionPlan)
    ensures
        pos != line.len() ==> r is Unchanged,
        pos == line.len() ==> {
            let w = request_words(line@);
            &&& w.len() == 1 <==> r is Command
            &&& r is Command ==> r->prefix@ == w[0]
            &&& (w.len() >= 2 && !is_option(w.last())) <==> r is Path
            &&& r is Path ==> r->before@ == spaced(w.drop_last()) && r->last@ == w.last()
            &&& !(r is Command) && !(r is Path) ==> r is Nothing
        },
{
    if pos != line.len() {
        return CompletionPlan::Unchanged;
    }
    let mut words = split_blank_words(line);
    let n = line.unicode_len();
    if n > 0 && line.get_char(n - 1) == ' ' {
        words.push(String::new());
    }
    proof {
        assert(texts(words@) =~= request_words(line@));
    }
    let k = words.len();
    if k == 1 {
        let prefix = words.remove(0);
        CompletionPlan::Command { prefix }
    } else if k >= 2 {
        let last = words.pop().unwrap();
        let lt = last.as_str();
        if lt.unicode_len() > 0 && lt.get_char(0) == '-' {
            CompletionPlan::Nothing
        } else {
            proof {
                assert(texts(words@) =~= request_words(line@).drop_last());
            }
            let before = join_spaced(words.as_slice());
            CompletionPlan::Path { before, last }
        }
    } else {
        CompletionPlan::Nothing
    }
}

/// The builtin names offered in command position (`history` among them,
/// though no such builtin runs).
pub open spec fn builtin_words() -> Seq<Seq<char>> {
    seq!["echo"@, "exit"@, "cd"@, "pwd"@, "type"@, "history"@]
}

/// The words of `ws` that start with `prefix`, each kept at its first
/// occurrence only.
pub open spec fn distinct_matches(prefix: Seq<char>, ws: Seq<Seq<char>>) -> Seq<Seq<char>>
    decreases ws.len(),
{
    if ws.len() == 0 {
        Seq::empty()
    } else {
        let d = distinct_matches(prefix, ws.drop_last());
        let w = ws.last();
        if prefix.is_prefix_of(w) && !d.contains(w) {
            d.push(w)
        } else {
            d
        }
    }
}

/// A lone candidate gets a space at its end: the word is complete.
pub open spec fn closed_if_single(d: Seq<Seq<char>>) -> Seq<Seq<char>> {
    if d.len() == 1 {
        seq![d[0] + seq![' ']]
    } else {
        d
    }
}

/// The candidates for a command name: builtin names, then the names of the
/// executables found on the search path (`names`), that start with `prefix`.
pub open spec fn command_candidates(prefix: Seq<char>, names: Seq<Seq<char>>) -> Seq<Seq<char>> {
    closed_if_single(distinct_matches(prefix, builtin_words() + names))
}

proof fn lemma_match_kept(prefix: Seq<char>, ws: Seq<Seq<char>>, i: int)
    requires
        0 <= i < ws.len(),
        prefix.is_prefix_of(ws[i]),
    ensures
        distinct_matches(prefix, ws).contains(ws[i]),
    decreases ws.len(),
{
    let d = distinct_matches(prefix, ws.drop_last());
    if i < ws.len() - 1 {
        lemma_match_kept(prefix, ws.drop_last(), i);
        let k = choose|k: int| 0 <= k < d.len() && d[k] == ws[i];
        if !(prefix.is_prefix_of(ws.last()) && !d.contains(ws.last())) {
        } else {
            assert(d.push(ws.last())[k] == ws[i]);
        }
    } else if !d.contains(ws.last()) {
        assert(d.push(ws.last())[d.len() as int] == ws[i]);
    }
}

proof fn lemma_matches_only(prefix: Seq<char>, ws: Seq<Seq<char>>, w: Seq<char>)
    requires
        forall|i: int| 0 <= i < ws.len() && prefix.is_prefix_of(#[trigger] ws[i]) ==> ws[i] == w,
    ensures
        distinct_matches(prefix, ws).len() <= 1,
        forall|k: int| 0 <= k < distinct_matches(prefix, ws).len() ==> #[trigger] distinct_matches(prefix, ws)[k] == w,
    decreases ws.len(),
{
    if ws.len() > 0 {
        let d = distinct_matches(prefix, ws.drop_last());
        assert forall|i: int| 0 <= i < ws.drop_last().len() && prefix.is_prefix_of(#[trigger] ws.drop_last()[i]) implies ws.drop_last()[i] == w by {
            assert(ws.drop_last()[i] == ws[i]);
        }
        lemma_matches_only(prefix, ws.drop_last(), w);
        if prefix.is_prefix_of(ws.last()) && !d.contains(ws.last()) {
            assert(ws.last() == ws[ws.len() - 1]);
            if d.len() == 1 {
                assert(d[0] == w);
                assert(d.contains(ws.last()));
            }
        }
    }
}

/// A prefix that both `echo` and `exit` start with is ambiguous in command
/// position: both are offered, and no space is appended.
pub proof fn lemma_shared_prefix_is_ambiguous(prefix: Seq<char>, names: Seq<Seq<char>>)
    requires
        prefix.is_prefix_of("echo"@),
        prefix.is_prefix_of("exit"@),
    ensures
        command_candidates(prefix, names) == distinct_matches(prefix, builtin_words() + names),
        command_candidates(prefix, names).contains("echo"@),
        command_candidates(prefix, names).contains("exit"@),
        command_candidates(prefix, names).len() >= 2,
{
    let ws = builtin_words() + names;
    assert(ws[0] == "echo"@);
    assert(ws[1] == "exit"@);
    lemma_match_kept(prefix, ws, 0);
    lemma_match_kept(prefix, ws, 1);
    let d = distinct_matches(prefix, ws);
    reveal_strlit("echo");
    reveal_strlit("exit");
    assert("echo"@[1] != "exit"@[1]);
    assert("echo"@ != "exit"@);
    let a = choose|k: int| 0 <= k < d.len() && d[k] == "echo"@;
    let b = choose|k: int| 0 <= k < d.len() && d[k] == "exit"@;
    assert(a != b);
}

/// Where `echo` is the only name that starts with `prefix`, whether among
/// the builtins or on the search path, it is the lone candidate, with a
/// space after it.
pub proof fn lemma_unique_prefix_is_closed(prefix: Seq<char>, names: Seq<Seq<char>>)
    requires
        prefix.is_prefix_of("echo"@),
        forall|i: int| 0 <= i < (builtin_words() + names).len()
            && prefix.is_prefix_of(#[trigger] (builtin_words() + names)[i])
            ==> (builtin_words() + names)[i] == "echo"@,
    ensures
        command_candidates(prefix, names) == seq!["echo"@ + seq![' ']],
{
    let ws = builtin_words() + names;
    assert(ws[0] == "echo"@);
    lemma_match_kept(prefix, ws, 0);
    lemma_matches_only(prefix, ws, "echo"@);
    let d = distinct_matches(prefix, ws);
    assert(d.len() == 1);
    assert(d[0] == "echo"@);
}

/// The lone command candidate for `ech` is `echo ` when the search path
/// offers no other name that starts with `ech`.
pub proof fn lemma_ech_completes_to_echo(names: Seq<Seq<char>>)
    requires
        forall|i: int| 0 <= i < names.len() && "ech"@.is_prefix_of(#[trigger] names[i]) ==> names[i] == "echo"@,
    ensures
        command_candidates("ech"@, names) == seq!["echo"@ + seq![' ']],
{
    reveal_strlit("ech");
    reveal_strlit("echo");
    reveal_strlit("exit");
    reveal_strlit("cd");
    reveal_strlit("pwd");
    reveal_strlit("type");
    reveal_strlit("history");
    let ws = builtin_words() + names;
    assert("ech"@.is_prefix_of("echo"@)) by {
        assert("echo"@.subrange(0, 3) =~= "ech"@);
    }
    assert forall|i: int| 0 <= i < ws.len() && "ech"@.is_prefix_of(#[trigger] ws[i]) implies ws[i] == "echo"@ by {
        if i >= 6 {
            assert(ws[i] == names[i - 6]);
        } else if i == 1 {
            assert(ws[i][1] != "ech"@[1]);
        } else if i == 2 {
            assert(ws[i][0] != "ech"@[0]);
        } else if i == 3 {
            assert(ws[i][0] != "ech"@[0]);
        } else if i == 4 {
            assert(ws[i][0] != "ech"@[0]);
        } else if i == 5 {
            assert(ws[i][0] != "ech"@[0]);
        }
    }
    lemma_unique_prefix_is_closed("ech"@, names);
}

/// Both `echo` and `exit` are offered for `e`, with no space appended.
pub proof fn lemma_e_is_ambiguous(names: Seq<Seq<char>>)
    ensures
        command_candidates("e"@, names).contains("echo"@),
        command_candidates("e"@, names).contains("exit"@),
        command_candidates("e"@, names).len() >= 2,
        command_candidates("e"@, names) == distinct_matches("e"@, builtin_words() + names),
{
    reveal_strlit("e");
    reveal_strlit("echo");
    reveal_strlit("exit");
    assert("echo"@.subrange(0, 1) =~= "e"@);
    assert("exit"@.subrange(0, 1) =~= "e"@);
    lemma_shared_prefix_is_ambiguous("e"@, names);
}

/// Whether one of the strings of `v` holds the characters of `s`.
pub fn contains_text(v: &Vec<String>, s: &str) -> (r: bool)
    ensures
        r == texts(v@).contains(s@),
{
    let n = v.len();
    let mut i: usize = 0;
    while i < n
        invariant
            n == v@.len(),
            i <= n,
            forall|j: int| 0 <= j < i ==> v@[j]@ != s@,
        decreases n - i,
    {
        if same_text(v[i].as_str(), s) {
            assert(texts(v@)[i as int] == s@);
            return true;
        }
        i = i + 1;
    }
    assert forall|j: int| 0 <= j < texts(v@).len() implies texts(v@)[j] != s@ by {
        assert(texts(v@)[j] == v@[j]@);
    }
    false
}

/// Appends a space to the lone string of a one-element vector.
fn close_single(v: Vec<String>) -> (r: Vec<String>)
    ensures
        texts(r@) == closed_if_single(texts(v@)),
{
    let mut v = v;
    let ghost old_v = v@;
    if v.len() == 1 {
        let mut w = v.remove(0);
        let ghost w0 = w@;
        proof {
            reveal_strlit(" ");
            assert(" "@ =~= seq![' ']);
        }
        w.append(" ");
        assert(w@ == w0 + seq![' ']);
        let mut r: Vec<String> = Vec::new();
        r.push(w);
        assert(texts(old_v).len() == 1);
        assert(texts(old_v)[0] == old_v[0]@);
        assert(texts(r@)[0] == w@);
        assert(texts(r@) =~= closed_if_single(texts(old_v)));
        r
    } else {
        v
    }
}

/// `k` is the position of the last `/` of `s`.
pub open spec fn last_slash_at(s: Seq<char>, k: int) -> bool {
    &&& 0 <= k < s.len()
    &&& s[k] == '/'
    &&& forall|j: int| k < j < s.len() ==> s[j] != '/'
}

/// The position of the last `/` of `s`, if it holds one.
pub open spec fn last_slash(s: Seq<char>) -> Option<int> {
    if exists|k: int| last_slash_at(s, k) {
        Some(choose|k: int| last_slash_at(s, k))
    } else {
        None
    }
}

/// The directory whose entries complete the path fragment `s`: the current
/// directory where `s` has no `/`, else what precedes its last `/`.
pub open spec fn listed_dir(s: Seq<char>) -> Seq<char> {
    match last_slash(s) {
        None => seq!['.'],
        Some(k) => s.subrange(0, k),
    }
}

/// The part of `s` that entry names are matched against: what follows its
/// last `/`, or all of it.
pub open spec fn fragment(s: Seq<char>) -> Seq<char> {
    match last_slash(s) {
        None => s,
        Some(k) => s.subrange(k + 1, s.len() as int),
    }
}

/// The text that a lone completion is put behind: the preceding words, a
/// space, and the directory part of the fragment with its `/`.
pub open spec fn typed_before(before: Seq<char>, s: Seq<char>) -> Seq<char> {
    match last_slash(s) {
        None => before + seq![' '],
        Some(k) => before + seq![' '] + s.subrange(0, k + 1),
    }
}

proof fn lemma_last_slash(s: Seq<char>, k: int)
    requires
        last_slash_at(s, k),
    ensures
        last_slash(s) == Some(k),
{
    let c = choose|k: int| last_slash_at(s, k);
    if c < k {
        assert(s[k] == '/');
    } else if k < c {
        assert(s[c] == '/');
    }
}

/// The position of the last `/` of `s`, if it holds one.
fn find_last_slash(s: &str) -> (r: Option<usize>)
    ensures
        r is None <==> last_slash(s@) is None,
        r is Some ==> last_slash(s@) == Some(r->0 as int) && r->0 < s@.len(),
{
    let n = s.unicode_len();
    let mut i: usize = n;
    while i > 0
        invariant
            n == s@.len(),
            i <= n,
            forall|j: int| i <= j < n ==> s@[j] != '/',
        decreases i,
    {
        if s.get_char(i - 1) == '/' {
            proof {
                lemma_last_slash(s@, i - 1);
            }
            return Some(i - 1);
        }
        i = i - 1;
    }
    assert(!exists|k: int| last_slash_at(s@, k));
    None
}

/// The directory to list for completing the path fragment `dir_prefix`.
pub fn directory_to_list(dir_prefix: &str) -> (r: String)
    ensures
        r@ == listed_dir(dir_prefix@),
{
    match find_last_slash(dir_prefix) {
        None => {
            proof {
                reveal_strlit(".");
                assert("."@ =~= seq!['.']);
            }
            String::from_str(".")
        },
        Some(k) => String::from_str(dir_prefix.substring_char(0, k)),
    }
}

/// An entry of a listed directory.
pub struct DirEntry {
    pub name: String,
    pub is_dir: bool,
}

/// How an entry is offered: a directory with a `/` at its end.
pub open spec fn entry_text(e: DirEntry) -> Seq<char> {
    if e.is_dir {
        e.name@ + seq!['/']
    } else {
        e.name@
    }
}

/// The entries whose names start with `frag`, as offered, in listing order.
pub open spec fn entry_matches(frag: Seq<char>, es: Seq<DirEntry>) -> Seq<Seq<char>>
    decreases es.len(),
{
    if es.len() == 0 {
        Seq::empty()
    } else {
        let d = entry_matches(frag, es.drop_last());
        if frag.is_prefix_of(es.last().name@) {
            d.push(entry_text(es.last()))
        } else {
            d
        }
    }
}

/// The longest common prefix of `a` and `b`.
pub open spec fn common_prefix(a: Seq<char>, b: Seq<char>) -> Seq<char> {
    a.subrange(0, choose|k: int| first_difference(a, b, k))
}

/// The longest common prefix of all of `cs` (empty for no strings).
pub open spec fn common_prefix_all(cs: Seq<Seq<char>>) -> Seq<char>
    decreases cs.len(),
{
    if cs.len() == 0 {
        Seq::empty()
    } else if cs.len() == 1 {
        cs[0]
    } else {
        common_prefix(common_prefix_all(cs.drop_last()), cs.last())
    }
}

/// The longest common prefix of `a` and `b`.
pub fn shared_prefix(a: &str, b: &str) -> (r: String)
    ensures
        r@ == common_prefix(a@, b@),
{
    let la = a.unicode_len();
    let lb = b.unicode_len();
    let mut k: usize = 0;
    while k < la && k < lb && a.get_char(k) == b.get_char(k)
        invariant
            la == a@.len(),
            lb == b@.len(),
            k <= la,
            k <= lb,
            forall|j: int| 0 <= j < k ==> a@[j] == b@[j],
        decreases la - k,
    {
        k = k + 1;
    }
    proof {
        assert(first_difference(a@, b@, k as int));
        let c = choose|c: int| first_difference(a@, b@, c);
        lemma_difference_unique(a@, b@, k as int, c);
    }
    String::from_str(a.substring_char(0, k))
}

/// The longest common prefix of all of `cs`.
pub fn longest_common_prefix(cs: &[String]) -> (r: String)
    ensures
        r@ == common_prefix_all(texts(cs@)),
{
    let n = cs.len();
    if n == 0 {
        return String::new();
    }
    let mut acc = cs[0].clone();
    let mut i: usize = 1;
    assert(texts(cs@).subrange(0, 1) =~= seq![cs@[0]@]);
    while i < n
        invariant
            n == cs@.len(),
            1 <= i <= n,
            acc@ == common_prefix_all(texts(cs@).subrange(0, i as int)),
        decreases n - i,
    {
        let ghost t = texts(cs@).subrange(0, i + 1);
        assert(t.drop_last() =~= texts(cs@).subrange(0, i as int));
        assert(t.last() == cs@[i as int]@);
        acc = shared_prefix(acc.as_str(), cs[i].as_str());
        i = i + 1;
    }
    assert(texts(cs@).subrange(0, n as int) =~= texts(cs@));
    acc
}

/// The completions of the path fragment `s` typed after the words `before`,
/// among the entries `es` of `listed_dir(s)`.
pub open spec fn path_completions(before: Seq<char>, s: Seq<char>, es: Seq<DirEntry>) -> Seq<Seq<char>> {
    let pre = typed_before(before, s);
    let frag = fragment(s);
    let cs = entry_matches(frag, es);
    if cs.len() == 1 {
        let c = pre + cs[0];
        if c.len() > 0 && c.last() == '/' {
            seq![c]
        } else {
            seq![c.push(' ')]
        }
    } else if cs.len() >= 2 {
        let l = common_prefix_all(cs);
        if l.len() > 0 && l != frag {
            seq![pre + l]
        } else {
            cs
        }
    } else {
        cs
    }
}

/// How an entry is offered.
fn offered(e: &DirEntry) -> (r: String)
    ensures
        r@ == entry_text(*e),
{
    if e.is_dir {
        proof {
            reveal_strlit("/");
            assert("/"@ =~= seq!['/']);
        }
        joined(e.name.as_str(), "/")
    } else {
        e.name.clone()
    }
}

/// The entries whose names start with `frag`, as offered.
fn matching_entries(frag: &str, es: &[DirEntry]) -> (r: Vec<String>)
    ensures
        texts(r@) == entry_matches(frag@, es@),
{
    let n = es.len();
    let mut r: Vec<String> = Vec::new();
    let mut i: usize = 0;
    assert(es@.subrange(0, 0) =~= Seq::<DirEntry>::empty());
    while i < n
        invariant
            n == es@.len(),
            i <= n,
            texts(r@) == entry_matches(frag@, es@.subrange(0, i as int)),
        decreases n - i,
    {
        let ghost sub = es@.subrange(0, i + 1);
        assert(sub.drop_last() =~= es@.subrange(0, i as int));
        assert(sub.last() == es@[i as int]);
        if has_prefix(es[i].name.as_str(), frag) {
            let ghost prev = texts(r@);
            r.push(offered(&es[i]));
            assert(texts(r@) =~= prev.push(entry_text(es@[i as int])));
        }
        i = i + 1;
    }
    assert(es@.subrange(0, n as int) =~= es@);
    r
}

/// Whether `s` is not empty and ends with `/`.
fn ends_with_slash(s: &str) -> (r: bool)
    ensures
        r == (s@.len() > 0 && s@.last() == '/'),
{
    let n = s.unicode_len();
    n > 0 && s.get_char(n - 1) == '/'
}

/// The shell's line-editing helper: it completes command names and paths.
pub struct InputHelper;

impl InputHelper {
    /// A new helper.
    pub fn default() -> (r: Self) {
        InputHelper
    }

    /// The candidates for a command name that starts with `prefix`, where
    /// `path_names` are the names of the executables found on the search path,
    /// in search order.
    pub fn get_cmd_candidates(prefix: &str, path_names: &[String]) -> (r: Vec<String>)
        ensures
            texts(r@) == command_candidates(prefix@, texts(path_names@)),
    {
        let mut all: Vec<String> = Vec::new();
        all.push(String::from_str("echo"));
        all.push(String::from_str("exit"));
        all.push(String::from_str("cd"));
        all.push(String::from_str("pwd"));
        all.push(String::from_str("type"));
        all.push(String::from_str("history"));
        let m = path_names.len();
        let mut i: usize = 0;
        assert(texts(all@) =~= builtin_words());
        while i < m
            invariant
                m == path_names@.len(),
                i <= m,
                texts(all@) == builtin_words() + texts(path_names@.subrange(0, i as int)),
            decreases m - i,
        {
            let ghost prev = texts(all@);
            all.push(path_names[i].clone());
            assert(texts(all@) =~= prev.push(path_names@[i as int]@));
            assert(texts(path_names@.subrange(0, i + 1)) =~= texts(path_names@.subrange(0, i as int)).push(path_names@[i as int]@));
            assert(texts(all@) =~= builtin_words() + texts(path_names@.subrange(0, i + 1)));
            i = i + 1;
        }
        assert(path_names@.subrange(0, m as int) =~= path_names@);
        let ghost ws = texts(all@);
        let n = all.len();
        let mut out: Vec<String> = Vec::new();
        let mut j: usize = 0;
        assert(ws.subrange(0, 0) =~= Seq::<Seq<char>>::empty());
        while j < n
            invariant
                n == all@.len(),
                ws == texts(all@),
                j <= n,
                texts(out@) == distinct_matches(prefix@, ws.subrange(0, j as int)),
            decreases n - j,
        {
            let w = all[j].as_str();
            assert(ws.subrange(0, j + 1).drop_last() =~= ws.subrange(0, j as int));
            assert(ws.subrange(0, j + 1).last() == w@);
            if has_prefix(w, prefix) && !contains_text(&out, w) {
                let ghost before = texts(out@);
                out.push(all[j].clone());
                assert(texts(out@) =~= before.push(w@));
            }
            j = j + 1;
        }
        assert(ws.subrange(0, n as int) =~= ws);
        close_single(out)
    }

    /// The candidates as they are offered: two or more in lexicographic
    /// order, else as they are.
    pub fn sort_candidates(v: Vec<String>) -> (r: Vec<String>)
        ensures
            v@.len() <= 1 ==> r@ == v@,
            v@.len() >= 2 ==> sorted_texts(r@),
            r@.to_multiset() == v@.to_multiset(),
            texts(r@).to_multiset() == texts(v@).to_multiset(),
    {
        if v.len() >= 2 {
            sort_texts(&v)
        } else {
            v
        }
    }

    /// The completions of the path fragment `dir_prefix`, typed after the
    /// words `before`, where `entries` are the entries of
    /// `directory_to_list(dir_prefix)` (none where it cannot be read).
    pub fn get_directory_completions(before: &str, dir_prefix: &str, entries: &[DirEntry]) -> (r: Vec<String>)
        ensures
            texts(r@) == path_completions(before@, dir_prefix@, entries@),
    {
        proof {
            reveal_strlit(" ");
            assert(" "@ =~= seq![' ']);
        }
        let mut pre = joined(before, " ");
        let frag = match find_last_slash(dir_prefix) {
            None => String::from_str(dir_prefix),
            Some(k) => {
                let n = dir_prefix.unicode_len();
                pre.append(dir_prefix.substring_char(0, k + 1));
                String::from_str(dir_prefix.substring_char(k + 1, n))
            },
        };
        assert(pre@ == typed_before(before@, dir_prefix@));
        assert(frag@ == fragment(dir_prefix@));
        let cs = matching_entries(frag.as_str(), entries);
        let mut r: Vec<String> = Vec::new();
        if cs.len() == 1 {
            let mut c = joined(pre.as_str(), cs[0].as_str());
            assert(texts(cs@)[0] == cs@[0]@);
            let ghost c0 = c@;
            if !ends_with_slash(c.as_str()) {
                c.append(" ");
                assert(c@ =~= c0.push(' '));
            }
            r.push(c);
            assert(texts(r@) =~= path_completions(before@, dir_prefix@, entries@));
            r
        } else if cs.len() >= 2 {
            let l = longest_common_prefix(cs.as_slice());
            if l.as_str().unicode_len() > 0 && !same_text(l.as_str(), frag.as_str()) {
                r.push(joined(pre.as_str(), l.as_str()));
                assert(texts(r@) =~= path_completions(before@, dir_prefix@, entries@));
                r
            } else {
                cs
            }
        } else {
            cs
        }
    }
}

} // verus!
