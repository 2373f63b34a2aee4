//! How the source of a marketplace is written: `owner/repo`, Git URLs and SSH
//! URLs, with an optional ref behind `#` or `@`, local paths and URLs of
//! manifests.

use crate::text::{
    ascii_alphanumeric, before_first, blank, chars_of, contains, ends_with, has_prefix, has_suffix,
    has_text, is_ascii_alphanumeric, law_a_character_is_held_where_it_stands,
    law_a_prefix_leaves_a_rest, law_a_run_at_the_end_is_taken_off,
    law_a_run_at_the_start_is_taken_off, law_a_suffix_leaves_a_rest,
    law_a_text_is_cut_at_the_first, law_alphanumerics_are_letters_and_digits,
    law_prefixes_come_first, law_suffixes_come_last, law_trimming_leaves_what_space_surrounds,
    lemma_before_absent, lemma_nothing_to_trim, lemma_rsplit_absent, lemma_rsplit_last,
    lemma_trim_end_matches, lemma_trim_start_matches, lower_letters, occurs_at, rsplit_once,
    same_text, split_last, starts_with, string_of, text_before, trim, trim_end_matches,
    trim_matches, trim_start_matches, trimmed, trimmed_end_matches, trimmed_matches, upper_letters,
    white_space,
};
use vstd::prelude::*;

verus! {

/// A ref, unless it is blank.
pub open spec fn ref_of(text: Seq<char>) -> Option<Seq<char>> {
    let t = trim(text);
    if t.len() > 0 {
        Some(t)
    } else {
        None
    }
}

pub open spec fn ssh_git_url(source: Seq<char>) -> bool {
    starts_with(source, "ssh://"@) || (starts_with(source, "git@"@) && contains(source, ":"@))
}

pub open spec fn http_git_url(source: Seq<char>) -> bool {
    starts_with(source, "http://"@) || starts_with(source, "https://"@)
}

pub open spec fn local_path(source: Seq<char>) -> bool {
    ||| starts_with(source, "./"@)
    ||| starts_with(source, "../"@)
    ||| starts_with(source, "/"@)
    ||| starts_with(source, "~/"@)
    ||| source == "."@
    ||| source == ".."@
}

/// A URL whose path, without the query, ends in the name of a manifest.
pub open spec fn manifest_url(source: Seq<char>) -> bool {
    http_git_url(source) && ends_with(
        trim_end_matches(before_first(source, '?'), '/'),
        "marketplace.json"@,
    )
}

/// A source without its ref, and the ref: what stands behind the last `#`, or,
/// in what is no URL, behind the last `@`.
pub open spec fn source_and_ref(source: Seq<char>) -> (Seq<char>, Option<Seq<char>>) {
    match rsplit_once(source, '#') {
        Some((base, name)) => (base, ref_of(name)),
        None => if contains(source, "://"@) || ssh_git_url(source) {
            (source, None)
        } else {
            match rsplit_once(source, '@') {
                Some((base, name)) => (base, ref_of(name)),
                None => (source, None),
            }
        },
    }
}

/// The URL without trailing slashes; one of GitHub ends in `.git`.
pub open spec fn normal_git_url(url: Seq<char>) -> Seq<char> {
    let t = trim_end_matches(url, '/');
    if starts_with(t, "https://github.com/"@) && !ends_with(t, ".git"@) {
        t + ".git"@
    } else {
        t
    }
}

/// A character that stands in the name of an owner, a repository or a directory.
pub open spec fn name_char(c: char) -> bool {
    ascii_alphanumeric(c) || c == '-' || c == '_' || c == '.'
}

/// The name of an owner or a repository.
pub open spec fn shorthand_segment(segment: Seq<char>) -> bool {
    segment.len() > 0 && forall|i: int| 0 <= i < segment.len() ==> name_char(#[trigger] segment[i])
}

/// `owner/repo`.
pub open spec fn github_shorthand(source: Seq<char>) -> bool {
    exists|i: int|
        #![trigger source[i]]
        {
            &&& 0 <= i < source.len()
            &&& source[i] == '/'
            &&& shorthand_segment(source.subrange(0, i))
            &&& shorthand_segment(source.subrange(i + 1, source.len() as int))
        }
}

/// The URL of the GitHub repository `owner/repo`.
pub open spec fn github_url(shorthand: Seq<char>) -> Seq<char> {
    "https://github.com/"@ + shorthand + ".git"@
}

/// A marketplace's name as the name of a directory: other characters become
/// dashes, and dots at the ends are dropped.
pub open spec fn safe_dir_name(name: Seq<char>) -> Seq<char> {
    trim_matches(
        name.map_values(
            |c: char|
                if name_char(c) {
                    c
                } else {
                    '-'
                },
        ),
        '.',
    )
}

/// What is first, or else second.
pub open spec fn or_else(first: Option<Seq<char>>, second: Option<Seq<char>>) -> Option<Seq<char>> {
    if first is Some {
        first
    } else {
        second
    }
}

/// A source without its ref, and the ref.
pub fn split_source_ref(source: &str) -> (r: (String, Option<String>))
    ensures
        (r.0@, r.1.deep_view()) == source_and_ref(source@),
{
    if let Some((base, ref_name)) = split_last(source, '#') {
        return (base, non_empty_ref(ref_name.as_str()));
    }
    if !has_text(source, "://") && !is_ssh_git_url(source) {
        if let Some((base, ref_name)) = split_last(source, '@') {
            return (base, non_empty_ref(ref_name.as_str()));
        }
    }
    (source.to_owned(), None)
}

/// A ref, unless it is blank.
pub fn non_empty_ref(ref_name: &str) -> (r: Option<String>)
    ensures
        r.deep_view() == ref_of(ref_name@),
{
    let t = trimmed(ref_name);
    if t.as_str().is_empty() {
        None
    } else {
        Some(t)
    }
}

/// The URL without trailing slashes; one of GitHub ends in `.git`.
pub fn normalize_git_url(url: &str) -> (r: String)
    ensures
        r@ == normal_git_url(url@),
{
    let t = trimmed_end_matches(url, '/');
    if has_prefix(t.as_str(), "https://github.com/") && !has_suffix(t.as_str(), ".git") {
        t.concat(".git")
    } else {
        t
    }
}

pub fn looks_like_local_path(source: &str) -> (r: bool)
    ensures
        r == local_path(source@),
{
    has_prefix(source, "./") || has_prefix(source, "../") || has_prefix(source, "/") || has_prefix(
        source,
        "~/",
    ) || same_text(source, ".") || same_text(source, "..")
}

pub fn looks_like_manifest_url(source: &str) -> (r: bool)
    ensures
        r == manifest_url(source@),
{
    if !is_git_url(source) {
        return false;
    }
    let without_query = text_before(source, '?');
    has_suffix(trimmed_end_matches(without_query.as_str(), '/').as_str(), "marketplace.json")
}

pub fn is_ssh_git_url(source: &str) -> (r: bool)
    ensures
        r == ssh_git_url(source@),
{
    has_prefix(source, "ssh://") || has_prefix(source, "git@") && has_text(source, ":")
}

pub fn is_git_url(source: &str) -> (r: bool)
    ensures
        r == http_git_url(source@),
{
    has_prefix(source, "http://") || has_prefix(source, "https://")
}

fn is_name_char(c: char) -> (r: bool)
    ensures
        r == name_char(c),
{
    is_ascii_alphanumeric(c) || c == '-' || c == '_' || c == '.'
}

pub fn is_github_shorthand_segment(segment: &str) -> (r: bool)
    ensures
        r == shorthand_segment(segment@),
{
    let v = chars_of(segment);
    let mut i: usize = 0;
    while i < v.len()
        invariant
            i <= v@.len(),
            v@ == segment@,
            forall|j: int| 0 <= j < i ==> name_char(#[trigger] v@[j]),
        decreases v.len() - i,
    {
        if !is_name_char(v[i]) {
            assert(!name_char(segment@[i as int]));
            return false;
        }
        i = i + 1;
    }
    v.len() > 0
}

pub fn looks_like_github_shorthand(source: &str) -> (r: bool)
    ensures
        r == github_shorthand(source@),
{
    let v = chars_of(source);
    let n = v.len();
    let mut i: usize = 0;
    while i < n && v[i] != '/'
        invariant
            i <= n == v@.len(),
            v@ == source@,
            forall|j: int| 0 <= j < i ==> v@[j] != '/',
        decreases n - i,
    {
        i = i + 1;
    }
    if i == n {
        return false;
    }
    let owner = string_of(v.as_slice(), 0, i);
    let repo = string_of(v.as_slice(), i + 1, n);
    let r = is_github_shorthand_segment(owner.as_str()) && is_github_shorthand_segment(
        repo.as_str(),
    );
    proof {
        assert(source@[i as int] == '/');
        if github_shorthand(source@) {
            let k = choose|k: int|
                #![trigger source@[k]]
                {
                    &&& 0 <= k < source@.len()
                    &&& source@[k] == '/'
                    &&& shorthand_segment(source@.subrange(0, k))
                    &&& shorthand_segment(source@.subrange(k + 1, source@.len() as int))
                };
            if i < k {
                assert(name_char(source@.subrange(0, k)[i as int]));
            }
            assert(i == k);
        }
    }
    r
}

/// A marketplace's name as the name of a directory, unless nothing is left of
/// it.
pub fn safe_marketplace_dir_name(marketplace_name: &str) -> (r: Option<String>)
    ensures
        r.deep_view() == if safe_dir_name(marketplace_name@).len() > 0 {
            Some(safe_dir_name(marketplace_name@))
        } else {
            None
        },
{
    let v = chars_of(marketplace_name);
    let mut safe = String::new();
    let mut i: usize = 0;
    let ghost f = |c: char|
        if name_char(c) {
            c
        } else {
            '-'
        };
    while i < v.len()
        invariant
            i <= v@.len(),
            f == (|c: char|
                if name_char(c) {
                    c
                } else {
                    '-'
                }),
            safe@ == v@.subrange(0, i as int).map_values(f),
        decreases v.len() - i,
    {
        if is_name_char(v[i]) {
            safe.push(v[i]);
        } else {
            safe.push('-');
        }
        i = i + 1;
    }
    assert(v@.subrange(0, i as int) == v@);
    let safe = trimmed_matches(safe.as_str(), '.');
    if safe.as_str().is_empty() {
        None
    } else {
        Some(safe)
    }
}

/// The name of a marketplace's directory is one path component below the
/// install root: letters, digits, `-`, `_` and `.`, without a dot at its ends.
pub proof fn law_dir_names_are_single_components(name: Seq<char>)
    ensures
        forall|i: int|
            0 <= i < safe_dir_name(name).len() ==> name_char(#[trigger] safe_dir_name(name)[i]),
        safe_dir_name(name).len() > 0 ==> safe_dir_name(name)[0] != '.' && safe_dir_name(
            name,
        ).last() != '.',
{
    let mapped = name.map_values(
        |c: char|
            if name_char(c) {
                c
            } else {
                '-'
            },
    );
    let start = trim_start_matches(mapped, '.');
    lemma_trim_start_matches(mapped, '.');
    lemma_trim_end_matches(start, '.');
    let safe = safe_dir_name(name);
    assert forall|i: int| 0 <= i < safe.len() implies name_char(#[trigger] safe[i]) by {
        assert(safe[i] == start[i]);
        assert(start[i] == mapped[i + mapped.len() - start.len()]);
    }
    if safe.len() > 0 {
        assert(safe[0] == start[0]);
    }
}

/// A name that can be a directory's as it is stays as it is.
pub proof fn law_safe_names_are_kept(name: Seq<char>)
    requires
        forall|i: int| 0 <= i < name.len() ==> name_char(#[trigger] name[i]),
        name.len() > 0 ==> name[0] != '.' && name.last() != '.',
    ensures
        safe_dir_name(name) == name,
{
    assert(name.map_values(
        |c: char|
            if name_char(c) {
                c
            } else {
                '-'
            },
    ) =~= name);
}

/// Normalizing a URL once more changes nothing.
pub proof fn law_normal_urls_are_kept(url: Seq<char>)
    ensures
        normal_git_url(normal_git_url(url)) == normal_git_url(url),
{
    let t = trim_end_matches(url, '/');
    let r = normal_git_url(url);
    lemma_trim_end_matches(url, '/');
    reveal_strlit(".git");
    reveal_strlit("https://github.com/");
    if r != t {
        assert(r == t + ".git"@);
        assert(".git"@.len() == 4 && ".git"@[3] == 't');
        assert(r.last() == ".git"@[3]);
        assert(r.subrange(r.len() - 4, r.len() as int) == ".git"@);
        assert(ends_with(r, ".git"@));
    }
    assert(trim_end_matches(r, '/') == r);
}

/// A source with a ref behind it, if there is one.
pub open spec fn with_ref(base: Seq<char>, mark: char, ref_name: Option<Seq<char>>) -> Seq<char> {
    match ref_name {
        Some(name) => base.push(mark) + name,
        None => base,
    }
}

/// A ref that can stand behind `#`: it is not blank at its ends and holds no `#`.
pub open spec fn plain_ref(ref_name: Option<Seq<char>>) -> bool {
    match ref_name {
        Some(name) => {
            &&& name.len() > 0
            &&& !white_space(name[0])
            &&& !white_space(name.last())
            &&& !name.contains('#')
        },
        None => true,
    }
}

/// A ref that can stand behind `@` too: it holds neither `@` nor `://`.
pub open spec fn shorthand_ref(ref_name: Option<Seq<char>>) -> bool {
    plain_ref(ref_name) && match ref_name {
        Some(name) => !name.contains('@') && !contains(name, "://"@),
        None => true,
    }
}

/// `owner/repo`, with or without a ref behind `@`, is the shorthand of a
/// repository and that ref, and nothing else. Owners `.` and `..` are left out:
/// with them it is a local path.
pub proof fn law_shorthand_is_read_as_written(
    owner: Seq<char>,
    repo: Seq<char>,
    ref_name: Option<Seq<char>>,
)
    requires
        shorthand_segment(owner),
        shorthand_segment(repo),
        owner != "."@,
        owner != ".."@,
        shorthand_ref(ref_name),
    ensures
        ({
            let base = owner.push('/') + repo;
            let text = with_ref(base, '@', ref_name);
            &&& text.len() > 0
            &&& trim(text) == text
            &&& source_and_ref(text) == (base, ref_name)
            &&& !local_path(base)
            &&& !ssh_git_url(base)
            &&& !http_git_url(base)
            &&& github_shorthand(base)
        }),
{
    let base = owner.push('/') + repo;
    let text = with_ref(base, '@', ref_name);
    let n = owner.len() as int;
    assert(base.subrange(0, n) =~= owner);
    assert(base.subrange(n + 1, base.len() as int) =~= repo);
    assert(base[n] == '/');
    assert forall|i: int| 0 <= i < base.len() && i != n implies name_char(#[trigger] base[i]) by {
        if i < n {
            assert(base[i] == owner[i]);
        } else {
            assert(base[i] == repo[i - n - 1]);
        }
    }
    reveal_strlit("./");
    reveal_strlit("../");
    reveal_strlit("/");
    reveal_strlit("~/");
    reveal_strlit(".");
    reveal_strlit("..");
    reveal_strlit("ssh://");
    reveal_strlit("git@");
    reveal_strlit("http://");
    reveal_strlit("https://");
    reveal_strlit("://");
    lemma_starts(base, "./"@);
    lemma_starts(base, "../"@);
    lemma_starts(base, "/"@);
    lemma_starts(base, "~/"@);
    lemma_starts(base, "ssh://"@);
    lemma_starts(base, "git@"@);
    lemma_starts(base, "http://"@);
    lemma_starts(base, "https://"@);
    lemma_starts(text, "ssh://"@);
    lemma_starts(text, "git@"@);
    assert(name_char(base[0]) && name_char(base.last()));
    if starts_with(base, "./"@) {
        assert(base[0] == "./"@[0] && base[1] == "./"@[1]);
        assert(n == 1);
        assert(owner =~= "."@);
    }
    if starts_with(base, "../"@) {
        assert(base[0] == "../"@[0] && base[1] == "../"@[1] && base[2] == "../"@[2]);
        assert(n == 2);
        assert(owner =~= ".."@);
    }
    assert(!local_path(base));
    assert(!base.contains('#'));
    assert(!base.contains('@'));
    assert(!base.contains(':'));
    assert(!ssh_git_url(base)) by {
        assert("ssh://"@[3] == ':' && "git@"@[3] == '@');
        if starts_with(base, "ssh://"@) || starts_with(base, "git@"@) {
            assert(base.contains(base[3]));
        }
    }
    assert(!http_git_url(base)) by {
        assert("http://"@[4] == ':' && "https://"@[5] == ':');
        if starts_with(base, "http://"@) {
            assert(base.contains(base[4]));
        } else if starts_with(base, "https://"@) {
            assert(base.contains(base[5]));
        }
    }
    assert(text[0] == base[0]);
    lemma_nothing_to_trim(text);
    assert forall|at: int| !occurs_at(text, "://"@, at) by {
        if occurs_at(text, "://"@, at) {
            assert(text.subrange(at, at + 3)[0] == text[at]);
            if at < base.len() {
                assert(base.contains(base[at]));
            } else {
                let name = ref_name->0;
                let from = at - base.len() - 1;
                assert(text[base.len() as int] == '@');
                assert(name.subrange(from, from + 3) =~= text.subrange(at, at + 3));
                assert(occurs_at(name, "://"@, from));
            }
        }
    }
    assert(!starts_with(text, "ssh://"@)) by {
        if starts_with(text, "ssh://"@) {
            assert(occurs_at(text, "://"@, 3)) by {
                assert forall|i: int| 0 <= i < 3 implies text[3 + i] == #[trigger] "://"@[i] by {
                    assert("ssh://"@[3 + i] == "://"@[i]);
                }
                assert(text.subrange(3, 6) =~= "://"@);
            }
        }
    }
    assert(!starts_with(text, "git@"@)) by {
        if starts_with(text, "git@"@) {
            assert(text[1] == "git@"@[1] && text[3] == "git@"@[3]);
            if base.len() >= 4 {
                assert(base.contains(base[3]));
            } else {
                assert(base[1] == '/');
                assert(text[1] == base[1]);
            }
        }
    }
    match ref_name {
        Some(name) => {
            assert(!text.contains('#')) by {
                if text.contains('#') {
                    let i = choose|i: int| 0 <= i < text.len() && text[i] == '#';
                    if i < base.len() {
                        assert(base.contains(base[i]));
                    } else {
                        assert(name[i - base.len() - 1] == '#');
                    }
                }
            }
            lemma_rsplit_absent(text, '#');
            lemma_rsplit_last(base, '@', name);
            lemma_nothing_to_trim(name);
        },
        None => {
            lemma_rsplit_absent(text, '#');
            lemma_rsplit_absent(text, '@');
        },
    }
}

/// The beginning of a text, character by character.
proof fn lemma_starts(s: Seq<char>, p: Seq<char>)
    ensures
        starts_with(s, p) <==> p.len() <= s.len() && forall|i: int|
            0 <= i < p.len() ==> s[i] == #[trigger] p[i],
{
    if starts_with(s, p) {
        assert forall|i: int| 0 <= i < p.len() implies s[i] == #[trigger] p[i] by {
            assert(s.subrange(0, p.len() as int)[i] == p[i]);
        }
    }
}

/// A URL of HTTP, with or without a ref behind `#`, is that URL and that ref.
pub proof fn law_urls_are_read_as_written(url: Seq<char>, ref_name: Option<Seq<char>>)
    requires
        http_git_url(url),
        !url.contains('#'),
        ref_name is None ==> !white_space(url.last()),
        plain_ref(ref_name),
    ensures
        ({
            let text = with_ref(url, '#', ref_name);
            &&& text.len() > 0
            &&& trim(text) == text
            &&& source_and_ref(text) == (url, ref_name)
            &&& !local_path(url)
        }),
{
    let text = with_ref(url, '#', ref_name);
    reveal_strlit("./");
    reveal_strlit("../");
    reveal_strlit("/");
    reveal_strlit("~/");
    reveal_strlit(".");
    reveal_strlit("..");
    reveal_strlit("http://");
    reveal_strlit("https://");
    reveal_strlit("://");
    lemma_starts(url, "http://"@);
    lemma_starts(url, "https://"@);
    lemma_starts(url, "./"@);
    lemma_starts(url, "../"@);
    lemma_starts(url, "/"@);
    lemma_starts(url, "~/"@);
    assert(url[0] == 'h') by {
        if starts_with(url, "http://"@) {
            assert("http://"@[0] == 'h');
        } else {
            assert("https://"@[0] == 'h');
        }
    }
    assert(text[0] == 'h');
    lemma_nothing_to_trim(text);
    assert(!local_path(url)) by {
        assert("./"@[0] == '.' && "../"@[0] == '.' && "/"@[0] == '/' && "~/"@[0] == '~');
        assert("."@[0] == '.' && ".."@[0] == '.');
    }
    match ref_name {
        Some(name) => {
            lemma_rsplit_last(url, '#', name);
            lemma_nothing_to_trim(name);
        },
        None => {
            lemma_rsplit_absent(url, '#');
            if starts_with(url, "http://"@) {
                assert forall|i: int| 0 <= i < 3 implies url[4 + i] == #[trigger] "://"@[i] by {
                    assert("http://"@[4 + i] == "://"@[i]);
                }
                assert(url.subrange(4, 7) =~= "://"@);
                assert(occurs_at(url, "://"@, 4));
            } else {
                assert forall|i: int| 0 <= i < 3 implies url[5 + i] == #[trigger] "://"@[i] by {
                    assert("https://"@[5 + i] == "://"@[i]);
                }
                assert(url.subrange(5, 8) =~= "://"@);
                assert(occurs_at(url, "://"@, 5));
            }
        },
    }
}

/// `url` is written as one of SSH: `ssh://` and more, or `git@`, a host, a colon
/// and a path.
pub open spec fn written_for_ssh(url: Seq<char>) -> bool {
    ||| exists|rest: Seq<char>| url == #[trigger] ("ssh://"@ + rest)
    ||| exists|rest: Seq<char>| url == #[trigger] ("git@"@ + rest) && rest.contains(':')
}

/// `url` is written as one of HTTP or HTTPS.
pub open spec fn written_for_http(url: Seq<char>) -> bool {
    ||| exists|rest: Seq<char>| url == #[trigger] ("http://"@ + rest)
    ||| exists|rest: Seq<char>| url == #[trigger] ("https://"@ + rest)
}

/// `path` is written as one on this machine: absolute, below the home directory,
/// or relative to the working directory.
pub open spec fn written_as_path(path: Seq<char>) -> bool {
    ||| path == seq!['.']
    ||| path == seq!['.', '.']
    ||| exists|rest: Seq<char>| path == #[trigger] ("/"@ + rest)
    ||| exists|rest: Seq<char>| path == #[trigger] ("~/"@ + rest)
    ||| exists|rest: Seq<char>| path == #[trigger] ("./"@ + rest)
    ||| exists|rest: Seq<char>| path == #[trigger] ("../"@ + rest)
}

/// `name` can be that of an owner or a repository: it is not empty, and holds
/// ASCII letters and digits, dashes, underscores and dots only.
pub open spec fn written_as_name(name: Seq<char>) -> bool {
    &&& name.len() > 0
    &&& forall|i: int|
        0 <= i < name.len() ==> {
            ||| upper_letters().contains(#[trigger] name[i])
            ||| lower_letters().contains(name[i])
            ||| "0123456789"@.contains(name[i])
            ||| "-_."@.contains(name[i])
        }
}

/// `source` is written as the name of an owner, a slash and that of a repository.
pub open spec fn written_as_shorthand(source: Seq<char>) -> bool {
    exists|owner: Seq<char>, repo: Seq<char>|
        source == #[trigger] (owner.push('/') + repo) && written_as_name(owner)
            && written_as_name(repo)
}

proof fn lemma_starts_where_built(s: Seq<char>, p: Seq<char>)
    ensures
        starts_with(s, p) <==> exists|rest: Seq<char>| s == #[trigger] (p + rest),
{
    if starts_with(s, p) {
        law_a_prefix_leaves_a_rest(s, p);
    }
    if exists|rest: Seq<char>| s == #[trigger] (p + rest) {
        let rest = choose|rest: Seq<char>| s == #[trigger] (p + rest);
        law_prefixes_come_first(p, rest);
    }
}

/// The characters of names are ASCII letters and digits, `-`, `_` and `.`.
pub proof fn law_names_hold_letters_digits_and_marks(name: Seq<char>)
    ensures
        shorthand_segment(name) <==> written_as_name(name),
{
    reveal_strlit("-_.");
    assert("-_."@[0] == '-' && "-_."@[1] == '_' && "-_."@[2] == '.');
    assert forall|c: char| #[trigger] name_char(c) <==> {
        ||| upper_letters().contains(c)
        ||| lower_letters().contains(c)
        ||| "0123456789"@.contains(c)
        ||| "-_."@.contains(c)
    } by {
        law_alphanumerics_are_letters_and_digits(c);
    }
    if shorthand_segment(name) {
        assert forall|i: int| 0 <= i < name.len() implies {
            ||| upper_letters().contains(#[trigger] name[i])
            ||| lower_letters().contains(name[i])
            ||| "0123456789"@.contains(name[i])
            ||| "-_."@.contains(name[i])
        } by {
            assert(name_char(name[i]));
        }
    }
}

/// What kind of source a text is can be told from how it is written.
pub proof fn law_sources_are_told_by_how_they_are_written(source: Seq<char>)
    ensures
        ssh_git_url(source) <==> written_for_ssh(source),
        http_git_url(source) <==> written_for_http(source),
        local_path(source) <==> written_as_path(source),
        github_shorthand(source) <==> written_as_shorthand(source),
{
    reveal_strlit("ssh://");
    reveal_strlit("git@");
    reveal_strlit(":");
    reveal_strlit("http://");
    reveal_strlit("https://");
    reveal_strlit("./");
    reveal_strlit("../");
    reveal_strlit("/");
    reveal_strlit("~/");
    reveal_strlit(".");
    reveal_strlit("..");
    assert(":"@ =~= seq![':']);
    assert("."@ =~= seq!['.']);
    assert(".."@ =~= seq!['.', '.']);
    lemma_starts_where_built(source, "ssh://"@);
    lemma_starts_where_built(source, "git@"@);
    lemma_starts_where_built(source, "http://"@);
    lemma_starts_where_built(source, "https://"@);
    lemma_starts_where_built(source, "./"@);
    lemma_starts_where_built(source, "../"@);
    lemma_starts_where_built(source, "/"@);
    lemma_starts_where_built(source, "~/"@);
    law_a_character_is_held_where_it_stands(source, ':');
    assert forall|rest: Seq<char>| source == #[trigger] ("git@"@ + rest) implies (source.contains(
        ':',
    ) <==> rest.contains(':')) by {
        if source.contains(':') {
            let i = choose|i: int| 0 <= i < source.len() && source[i] == ':';
            assert("git@"@.len() == 4 && "git@"@[0] == 'g' && "git@"@[1] == 'i' && "git@"@[2] == 't'
                && "git@"@[3] == '@');
            assert(i >= 4) by {
                if i < 4 {
                    assert(source[i] == "git@"@[i]);
                }
            }
            assert(rest[i - 4] == ':');
        }
        if rest.contains(':') {
            let i = choose|i: int| 0 <= i < rest.len() && rest[i] == ':';
            assert(source[i + 4] == ':');
        }
    }
    if github_shorthand(source) {
        let i = choose|i: int|
            #![trigger source[i]]
            {
                &&& 0 <= i < source.len()
                &&& source[i] == '/'
                &&& shorthand_segment(source.subrange(0, i))
                &&& shorthand_segment(source.subrange(i + 1, source.len() as int))
            };
        let owner = source.subrange(0, i);
        let repo = source.subrange(i + 1, source.len() as int);
        law_names_hold_letters_digits_and_marks(owner);
        law_names_hold_letters_digits_and_marks(repo);
        assert(source =~= owner.push('/') + repo);
    }
    if written_as_shorthand(source) {
        let (owner, repo) = choose|owner: Seq<char>, repo: Seq<char>|
            source == #[trigger] (owner.push('/') + repo) && written_as_name(owner)
                && written_as_name(repo);
        law_names_hold_letters_digits_and_marks(owner);
        law_names_hold_letters_digits_and_marks(repo);
        let i = owner.len() as int;
        assert(source.subrange(0, i) =~= owner);
        assert(source.subrange(i + 1, source.len() as int) =~= repo);
        assert(source[i] == '/');
    }
}

/// What stands behind the last `#` is the ref, without the white space around it,
/// and none where that leaves nothing. What stands before it is the source.
pub proof fn law_the_ref_stands_behind_the_last_hash(
    base: Seq<char>,
    before: Seq<char>,
    name: Seq<char>,
    after: Seq<char>,
)
    requires
        blank(before),
        blank(after),
        name.len() > 0 ==> !white_space(name[0]) && !white_space(name.last()),
        !name.contains('#'),
    ensures
        source_and_ref(base.push('#') + (before + name + after)) == (
            base,
            if name.len() > 0 {
                Some(name)
            } else {
                None
            },
        ),
{
    let text = before + name + after;
    assert(!text.contains('#')) by {
        if text.contains('#') {
            let i = choose|i: int| 0 <= i < text.len() && text[i] == '#';
            if i < before.len() {
                assert(white_space(before[i]));
            } else if i < before.len() + name.len() {
                assert(name[i - before.len()] == '#');
            } else {
                assert(white_space(after[i - before.len() - name.len()]));
            }
        }
    }
    lemma_rsplit_last(base, '#', text);
    law_trimming_leaves_what_space_surrounds(before, name, after);
}

/// In what holds no `#` and is no URL, the ref stands behind the last `@`. A URL
/// has no such ref: an `@` in it stands for itself.
pub proof fn law_the_ref_stands_behind_the_last_at(
    base: Seq<char>,
    before: Seq<char>,
    name: Seq<char>,
    after: Seq<char>,
)
    requires
        blank(before),
        blank(after),
        name.len() > 0 ==> !white_space(name[0]) && !white_space(name.last()),
        !name.contains('@'),
        !(base.push('@') + (before + name + after)).contains('#'),
    ensures
        ({
            let text = base.push('@') + (before + name + after);
            source_and_ref(text) == if contains(text, seq![':', '/', '/']) || written_for_ssh(text) {
                (text, None)
            } else {
                (
                    base,
                    if name.len() > 0 {
                        Some(name)
                    } else {
                        None
                    },
                )
            }
        }),
{
    let behind = before + name + after;
    let text = base.push('@') + behind;
    reveal_strlit("://");
    assert("://"@ =~= seq![':', '/', '/']);
    law_sources_are_told_by_how_they_are_written(text);
    lemma_rsplit_absent(text, '#');
    assert(!behind.contains('@')) by {
        if behind.contains('@') {
            let i = choose|i: int| 0 <= i < behind.len() && behind[i] == '@';
            if i < before.len() {
                assert(white_space(before[i]));
            } else if i < before.len() + name.len() {
                assert(name[i - before.len()] == '@');
            } else {
                assert(white_space(after[i - before.len() - name.len()]));
            }
        }
    }
    lemma_rsplit_last(base, '@', behind);
    law_trimming_leaves_what_space_surrounds(before, name, after);
}

/// Without `#` and `@` there is no ref.
pub proof fn law_without_a_mark_there_is_no_ref(text: Seq<char>)
    requires
        !text.contains('#'),
        !text.contains('@'),
    ensures
        source_and_ref(text) == (text, None::<Seq<char>>),
{
    lemma_rsplit_absent(text, '#');
    lemma_rsplit_absent(text, '@');
}

/// A Git URL loses its trailing slashes, and nothing else. One of GitHub is given
/// `.git` where it does not end so.
pub proof fn law_slashes_behind_a_url_are_dropped(stem: Seq<char>, slashes: nat)
    requires
        stem.len() > 0 ==> stem.last() != '/',
    ensures
        normal_git_url(stem + Seq::new(slashes, |i: int| '/')) == if (exists|path: Seq<char>|
            stem == #[trigger] ("https://github.com/"@ + path)) && !(exists|rest: Seq<char>|
            stem == #[trigger] (rest + ".git"@)) {
            stem + ".git"@
        } else {
            stem
        },
{
    law_a_run_at_the_end_is_taken_off(stem, '/', slashes);
    lemma_starts_where_built(stem, "https://github.com/"@);
    if ends_with(stem, ".git"@) {
        law_a_suffix_leaves_a_rest(stem, ".git"@);
    }
    if exists|rest: Seq<char>| stem == #[trigger] (rest + ".git"@) {
        let rest = choose|rest: Seq<char>| stem == #[trigger] (rest + ".git"@);
        law_suffixes_come_last(rest, ".git"@);
    }
}

/// A URL of SSH, with or without a ref behind `#`, is that URL and that ref.
pub proof fn law_ssh_urls_are_read_as_written(url: Seq<char>, ref_name: Option<Seq<char>>)
    requires
        written_for_ssh(url),
        !url.contains('#'),
        ref_name is None ==> !white_space(url.last()),
        plain_ref(ref_name),
    ensures
        ({
            let text = with_ref(url, '#', ref_name);
            &&& text.len() > 0
            &&& trim(text) == text
            &&& source_and_ref(text) == (url, ref_name)
            &&& !written_as_path(url)
            &&& !written_for_http(url)
        }),
{
    let text = with_ref(url, '#', ref_name);
    reveal_strlit("ssh://");
    reveal_strlit("git@");
    reveal_strlit("http://");
    reveal_strlit("https://");
    reveal_strlit("./");
    reveal_strlit("../");
    reveal_strlit("/");
    reveal_strlit("~/");
    law_sources_are_told_by_how_they_are_written(url);
    assert(url.len() >= 4 && (url[0] == 's' || url[0] == 'g')) by {
        if exists|rest: Seq<char>| url == #[trigger] ("ssh://"@ + rest) {
            let rest = choose|rest: Seq<char>| url == #[trigger] ("ssh://"@ + rest);
            assert(url[0] == "ssh://"@[0]);
        } else {
            let rest = choose|rest: Seq<char>|
                url == #[trigger] ("git@"@ + rest) && rest.contains(':');
            assert(url[0] == "git@"@[0]);
        }
    }
    assert(!written_as_path(url)) by {
        assert forall|rest: Seq<char>| url != #[trigger] ("/"@ + rest) by {
            assert(("/"@ + rest)[0] == '/');
        }
        assert forall|rest: Seq<char>| url != #[trigger] ("~/"@ + rest) by {
            assert(("~/"@ + rest)[0] == '~');
        }
        assert forall|rest: Seq<char>| url != #[trigger] ("./"@ + rest) by {
            assert(("./"@ + rest)[0] == '.');
        }
        assert forall|rest: Seq<char>| url != #[trigger] ("../"@ + rest) by {
            assert(("../"@ + rest)[0] == '.');
        }
    }
    assert(!written_for_http(url)) by {
        assert forall|rest: Seq<char>| url != #[trigger] ("http://"@ + rest) by {
            assert(("http://"@ + rest)[0] == 'h');
        }
        assert forall|rest: Seq<char>| url != #[trigger] ("https://"@ + rest) by {
            assert(("https://"@ + rest)[0] == 'h');
        }
    }
    assert(text[0] == url[0]);
    lemma_nothing_to_trim(text);
    match ref_name {
        Some(name) => {
            lemma_rsplit_last(url, '#', name);
            lemma_nothing_to_trim(name);
        },
        None => {
            lemma_rsplit_absent(url, '#');
        },
    }
}

/// A URL of a manifest is one of HTTP whose path, before any query and without
/// trailing slashes, ends in the manifest's name.
pub proof fn law_manifests_are_told_by_their_name(stem: Seq<char>, slashes: nat, query: Seq<char>)
    requires
        !stem.contains('?'),
        stem.len() > 0 ==> stem.last() != '/',
        query.len() > 0 ==> query[0] == '?',
    ensures
        ({
            let url = stem + Seq::new(slashes, |i: int| '/') + query;
            manifest_url(url) <==> written_for_http(url) && exists|rest: Seq<char>|
                stem == #[trigger] (rest + "marketplace.json"@)
        }),
{
    let path = stem + Seq::new(slashes, |i: int| '/');
    let url = path + query;
    law_sources_are_told_by_how_they_are_written(url);
    assert(!path.contains('?')) by {
        if path.contains('?') {
            let i = choose|i: int| 0 <= i < path.len() && path[i] == '?';
            if i < stem.len() {
                assert(stem[i] == '?');
            }
        }
    }
    if query.len() > 0 {
        let after = query.drop_first();
        assert(url =~= path.push('?') + after);
        law_a_text_is_cut_at_the_first(path, '?', after);
    } else {
        assert(url =~= path);
        lemma_before_absent(path, '?');
    }
    law_a_run_at_the_end_is_taken_off(stem, '/', slashes);
    if ends_with(stem, "marketplace.json"@) {
        law_a_suffix_leaves_a_rest(stem, "marketplace.json"@);
    }
    if exists|rest: Seq<char>| stem == #[trigger] (rest + "marketplace.json"@) {
        let rest = choose|rest: Seq<char>| stem == #[trigger] (rest + "marketplace.json"@);
        law_suffixes_come_last(rest, "marketplace.json"@);
    }
}

/// The URL of a GitHub repository, without `.git`.
pub open spec fn bare_github_url(shorthand: Seq<char>) -> Seq<char> {
    "https://github.com/"@ + shorthand
}

/// The URL of a GitHub repository is a normal Git URL and no manifest; without
/// `.git`, or with a slash behind it, it is normalized to that URL. A repository
/// whose own name ends in `.git`, or in the name of a manifest, is read otherwise
/// where `.git` is left out.
pub proof fn law_github_urls_have_one_normal_form(owner: Seq<char>, repo: Seq<char>)
    requires
        shorthand_segment(owner),
        shorthand_segment(repo),
    ensures
        ({
            let base = owner.push('/') + repo;
            let url = github_url(base);
            let bare = bare_github_url(base);
            &&& http_git_url(url) && http_git_url(bare) && http_git_url(bare.push('/'))
            &&& !url.contains('#') && !bare.contains('#') && !bare.push('/').contains('#')
            &&& !white_space(url.last()) && !white_space(bare.last())
            &&& normal_git_url(url) == url
            &&& !manifest_url(url)
            &&& !ends_with(repo, ".git"@) ==> normal_git_url(bare) == url && normal_git_url(
                bare.push('/'),
            ) == url
            &&& !ends_with(repo, "marketplace.json"@) ==> !manifest_url(bare) && !manifest_url(
                bare.push('/'),
            )
        }),
{
    let base = owner.push('/') + repo;
    let url = github_url(base);
    let bare = bare_github_url(base);
    let slashed = bare.push('/');
    reveal_strlit("https://github.com/");
    reveal_strlit("https://");
    reveal_strlit(".git");
    reveal_strlit("marketplace.json");
    let host = "https://github.com/"@;
    assert(host.len() == 19);
    assert forall|i: int| 0 <= i < host.len() implies host[i] != '#' && host[i] != '?' by {}
    assert forall|i: int| 0 <= i < base.len() implies base[i] == '/' || name_char(
        #[trigger] base[i],
    ) by {
        if i < owner.len() {
            assert(base[i] == owner[i]);
        } else if i > owner.len() {
            assert(base[i] == repo[i - owner.len() - 1]);
        }
    }
    assert forall|i: int| 0 <= i < bare.len() implies bare[i] != '#' && bare[i] != '?' by {
        if i < host.len() {
            assert(bare[i] == host[i]);
        } else {
            assert(bare[i] == base[i - host.len()]);
        }
    }
    assert(bare.last() == repo.last());
    assert(name_char(repo[repo.len() - 1]));
    assert(url =~= bare + ".git"@);
    assert(url.last() == 't');
    assert forall|i: int| 0 <= i < url.len() implies url[i] != '#' && url[i] != '?' by {
        if i >= bare.len() {
            assert(url[i] == ".git"@[i - bare.len()]);
        } else {
            assert(url[i] == bare[i]);
        }
    }
    assert forall|i: int| 0 <= i < 8 implies "https://"@[i] == host[i] by {}
    assert(url.subrange(0, 8) =~= "https://"@);
    assert(bare.subrange(0, 8) =~= "https://"@);
    assert(slashed.subrange(0, 8) =~= "https://"@);
    assert(url.subrange(0, 19) =~= host);
    assert(bare.subrange(0, 19) =~= host);
    assert(url.subrange(url.len() - 4, url.len() as int) =~= ".git"@);
    assert(ends_with(url, ".git"@));
    assert(slashed.drop_last() =~= bare);
    assert(trim_end_matches(url, '/') == url);
    assert(trim_end_matches(bare, '/') == bare);
    assert(trim_end_matches(slashed, '/') == bare);
    lemma_before_absent(url, '?');
    lemma_before_absent(bare, '?');
    assert forall|i: int| 0 <= i < slashed.len() implies slashed[i] != '?' by {
        if i < bare.len() {
            assert(slashed[i] == bare[i]);
        }
    }
    lemma_before_absent(slashed, '?');
    assert(!ends_with(url, "marketplace.json"@)) by {
        if ends_with(url, "marketplace.json"@) {
            assert(url.subrange(url.len() - 16, url.len() as int)[15] == url.last());
            assert("marketplace.json"@[15] == 'n');
        }
    }
    assert(!".git"@.contains('/'));
    assert(!"marketplace.json"@.contains('/'));
    assert((host + owner).push('/') + repo =~= bare);
    if ends_with(bare, ".git"@) {
        lemma_ends_in_last_segment(host + owner, repo, ".git"@);
    }
    if ends_with(bare, "marketplace.json"@) {
        lemma_ends_in_last_segment(host + owner, repo, "marketplace.json"@);
    }
}

/// An ending without a slash stands in the last segment.
proof fn lemma_ends_in_last_segment(before: Seq<char>, segment: Seq<char>, end: Seq<char>)
    requires
        !end.contains('/'),
        ends_with(before.push('/') + segment, end),
    ensures
        ends_with(segment, end),
{
    let s = before.push('/') + segment;
    let from = s.len() - end.len();
    if end.len() > segment.len() {
        assert(s[before.len() as int] == '/');
        assert(s.subrange(from, s.len() as int)[before.len() - from] == '/');
        assert(end[before.len() - from] == '/');
    } else {
        assert(segment.subrange(segment.len() - end.len(), segment.len() as int) =~= s.subrange(
            from,
            s.len() as int,
        ));
    }
}

/// The name of a marketplace's directory is the marketplace's name without the dots
/// at its ends, character by character: letters, digits, `-`, `_` and `.` stay, and
/// each other character becomes one dash.
pub proof fn law_dir_names_follow_the_name(before: nat, name: Seq<char>, after: nat)
    requires
        name.len() > 0 ==> name[0] != '.' && name.last() != '.',
        name.len() == 0 ==> after == 0,
    ensures
        ({
            let dots = |n: nat| Seq::new(n, |i: int| '.');
            let dir = safe_dir_name(dots(before) + name + dots(after));
            &&& dir.len() == name.len()
            &&& forall|i: int|
                0 <= i < name.len() ==> #[trigger] dir[i] == if written_as_name(seq![name[i]]) {
                    name[i]
                } else {
                    '-'
                }
        }),
{
    let f = |c: char|
        if name_char(c) {
            c
        } else {
            '-'
        };
    let start = Seq::new(before, |i: int| '.');
    let end = Seq::new(after, |i: int| '.');
    let text = start + name + end;
    let mapped = text.map_values(f);
    let core = name.map_values(f);
    assert(mapped =~= start + (core + end));
    assert forall|c: char| #[trigger] f(c) == '.' <==> c == '.' by {}
    if name.len() > 0 {
        assert(core[0] == f(name[0]));
        assert(core.last() == f(name.last()));
        assert((core + end)[0] == core[0]);
        law_a_run_at_the_start_is_taken_off(core + end, '.', before);
        law_a_run_at_the_end_is_taken_off(core, '.', after);
    } else {
        assert(core + end =~= Seq::<char>::empty());
        law_a_run_at_the_start_is_taken_off(core + end, '.', before);
        assert(trim_start_matches(mapped, '.') =~= Seq::<char>::empty());
    }
    assert forall|i: int| 0 <= i < name.len() implies (if written_as_name(seq![name[i]]) {
        name[i]
    } else {
        '-'
    }) == #[trigger] core[i] by {
        law_names_hold_letters_digits_and_marks(seq![name[i]]);
        assert(shorthand_segment(seq![name[i]]) <==> name_char(name[i])) by {
            assert(seq![name[i]][0] == name[i]);
        }
    }
}

} // verus!
