//! Reading a connection command such as `ssh -p 2222 user@host`.
//!
//! The line is cut into words at white space. The first word has to be
//! `ssh`. Of the words that follow, a pair `-p PORT` with a port that can be
//! read sets the port, any other word that begins with `-` is passed over,
//! and the first word that does not begin with `-` is the target. The target
//! has to hold exactly one `@`, with a user before it and a host after it.
use crate::config::{opt_host_view, Host, HostView};
use crate::text::{
    char_is_space, chars_of, is_space, parse_u16, parse_u16_text, same_chars, text_of_range,
};
use vstd::prelude::*;

verus! {

/// The port of a connection where none is named.
pub const DEFAULT_PORT: u16 = 22;

/// How many characters from the offset `i` on are no white space, up to the
/// first that is.
pub open spec fn run_len(s: Seq<char>, i: int) -> nat
    decreases s.len() - i,
{
    if 0 <= i < s.len() && !is_space(s[i]) {
        1 + run_len(s, i + 1)
    } else {
        0
    }
}

/// Whether a word begins at the offset `i`: the character there is no white
/// space, and the one before it, if there is one, is.
pub open spec fn word_starts_at(s: Seq<char>, i: int) -> bool {
    0 <= i < s.len() && !is_space(s[i]) && (i == 0 || is_space(s[i - 1]))
}

/// The words of a text that begin at the offset `i` or after it.
pub open spec fn words_from(s: Seq<char>, i: int) -> Seq<Seq<char>>
    decreases s.len() - i,
{
    if i < 0 || i >= s.len() {
        Seq::empty()
    } else if word_starts_at(s, i) {
        seq![s.subrange(i, i + run_len(s, i))] + words_from(s, i + 1)
    } else {
        words_from(s, i + 1)
    }
}

/// The words of a text: its longest stretches without white space, in order.
pub open spec fn words(s: Seq<char>) -> Seq<Seq<char>> {
    words_from(s, 0)
}

/// The texts of a list of words.
pub open spec fn word_views(words: Seq<Vec<char>>) -> Seq<Seq<char>> {
    words.map_values(|w: Vec<char>| w@)
}

/// A word that begins with `-` is an option.
pub open spec fn is_flag(word: Seq<char>) -> bool {
    word.len() > 0 && word[0] == '-'
}

/// Whether the words at `i` and `i + 1` are `-p` and a port that can be
/// read.
pub open spec fn is_port_pair(words: Seq<Seq<char>>, i: int) -> bool {
    &&& 0 <= i
    &&& i + 1 < words.len()
    &&& words[i] == "-p"@
    &&& parse_u16_text(words[i + 1]) is Some
}

/// The target among the words from `i` on, with the port that holds when it
/// is reached: the first word that is neither part of a port pair nor an
/// option. `port` is the port that holds at `i`.
pub open spec fn target_from(words: Seq<Seq<char>>, i: int, port: u16) -> Option<(Seq<char>, u16)>
    decreases words.len() - i,
{
    if i < 0 || i >= words.len() {
        None
    } else if is_port_pair(words, i) {
        target_from(words, i + 2, parse_u16_text(words[i + 1]).unwrap())
    } else if !is_flag(words[i]) {
        Some((words[i], port))
    } else {
        target_from(words, i + 1, port)
    }
}

/// The offset of the first `@` at or after `i`; the length of the word where
/// there is none.
pub open spec fn first_at_sign(word: Seq<char>, i: int) -> int
    decreases word.len() - i,
{
    if i < 0 || i >= word.len() || word[i] == '@' {
        i
    } else {
        first_at_sign(word, i + 1)
    }
}

/// The profile that a target `user@host` stands for. The `@` has to be the
/// only one, and neither side may be empty.
pub open spec fn host_of_target(word: Seq<char>, port: u16) -> Option<HostView> {
    let at = first_at_sign(word, 0);
    if 0 < at && at + 1 < word.len() && first_at_sign(word, at + 1) >= word.len() {
        Some(
            HostView {
                name: word,
                user: word.subrange(0, at),
                host: word.subrange(at + 1, word.len() as int),
                port: Some(port),
                password: None,
                command: None,
            },
        )
    } else {
        None
    }
}

/// The profile that a list of words stands for.
pub open spec fn parse_word_list(words: Seq<Seq<char>>) -> Option<HostView> {
    if words.len() == 0 || words[0] != "ssh"@ {
        None
    } else {
        match target_from(words, 1, DEFAULT_PORT) {
            Some((word, port)) => host_of_target(word, port),
            None => None,
        }
    }
}

/// The profile that a connection command stands for.
pub open spec fn parse_ssh_text(line: Seq<char>) -> Option<HostView> {
    parse_word_list(words(line))
}

/// The first `@` of a word lies at or after the offset where the search
/// began, inside the word or at its end, and no `@` comes before it.
pub proof fn lemma_first_at_sign(word: Seq<char>, i: int)
    requires
        0 <= i <= word.len(),
    ensures
        i <= first_at_sign(word, i) <= word.len(),
        first_at_sign(word, i) < word.len() ==> word[first_at_sign(word, i)] == '@',
        forall|k: int| i <= k < first_at_sign(word, i) ==> word[k] != '@',
    decreases word.len() - i,
{
    if i < word.len() && word[i] != '@' {
        lemma_first_at_sign(word, i + 1);
    }
}

/// A target that is accepted is the text `user@host`: it holds one `@` and
/// no more, a user and a host that are not empty and hold no `@`, and the
/// profile is named after the whole target.
pub proof fn lemma_host_of_target(word: Seq<char>, port: u16)
    requires
        host_of_target(word, port) is Some,
    ensures
        ({
            let h = host_of_target(word, port).unwrap();
            &&& h.is_complete()
            &&& h.name == h.user + seq!['@'] + h.host
            &&& h.name == word
            &&& h.port == Some(port)
            &&& h.password is None
            &&& h.command is None
            &&& !h.user.contains('@')
            &&& !h.host.contains('@')
        }),
{
    let at = first_at_sign(word, 0);
    lemma_first_at_sign(word, 0);
    lemma_first_at_sign(word, at + 1);
    let h = host_of_target(word, port).unwrap();
    assert(h.user + seq!['@'] + h.host =~= word);
}

/// A command that is accepted gives a profile with a user and a host.
pub proof fn lemma_parsed_host_is_complete(line: Seq<char>)
    requires
        parse_ssh_text(line) is Some,
    ensures
        parse_ssh_text(line).unwrap().is_complete(),
        parse_ssh_text(line).unwrap().password is None,
        parse_ssh_text(line).unwrap().command is None,
        parse_ssh_text(line).unwrap().port is Some,
{
    let ws = words(line);
    let t = target_from(ws, 1, DEFAULT_PORT).unwrap();
    lemma_host_of_target(t.0, t.1);
}

/// A stretch without white space that ends at white space or at the end of
/// the text is as long as `run_len` says.
pub proof fn lemma_run_len(s: Seq<char>, i: int, n: int)
    requires
        0 <= i,
        0 <= n,
        i + n <= s.len(),
        forall|k: int| i <= k < i + n ==> !is_space(s[k]),
        i + n == s.len() || is_space(s[i + n]),
    ensures
        run_len(s, i) == n,
    decreases n,
{
    if n > 0 {
        lemma_run_len(s, i + 1, n - 1);
    }
}

/// Where no word starts between `i` and `j`, the words from `i` on are the
/// words from `j` on.
pub proof fn lemma_no_words_between(s: Seq<char>, i: int, j: int)
    requires
        0 <= i <= j <= s.len(),
        forall|k: int| i <= k < j ==> !word_starts_at(s, k),
    ensures
        words_from(s, i) == words_from(s, j),
    decreases j - i,
{
    if i < j {
        lemma_no_words_between(s, i + 1, j);
    }
}

/// A word that stands in a text at `i`, after white space or at the start
/// and before white space or at the end, is the first of the words from `i`
/// on; the others are the words from its end on.
pub proof fn lemma_word_at(s: Seq<char>, i: int, word: Seq<char>)
    requires
        0 <= i,
        word.len() > 0,
        i + word.len() <= s.len(),
        s.subrange(i, i + word.len()) == word,
        forall|k: int| 0 <= k < word.len() ==> !is_space(#[trigger] word[k]),
        i == 0 || is_space(s[i - 1]),
        i + word.len() == s.len() || is_space(s[i + word.len()]),
    ensures
        words_from(s, i) == seq![word] + words_from(s, i + word.len()),
{
    let n = word.len() as int;
    assert forall|k: int| i <= k < i + n implies !is_space(s[k]) by {
        assert(s[k] == word[k - i]);
    }
    lemma_run_len(s, i, n);
    assert(word_starts_at(s, i));
    lemma_no_words_between(s, i + 1, i + n);
}

/// Cuts a text into its words.
pub fn split_words(chars: &Vec<char>) -> (r: Vec<Vec<char>>)
    ensures
        word_views(r@) == words(chars@),
{
    let ghost s = chars@;
    let n = chars.len();
    let mut out: Vec<Vec<char>> = Vec::new();
    let mut i: usize = 0;
    proof {
        assert(word_views(out@) + words_from(s, 0) =~= words(s));
    }
    while i < n
        invariant
            s == chars@,
            n == s.len(),
            i <= n,
            i < n && !is_space(s[i as int]) ==> word_starts_at(s, i as int),
            word_views(out@) + words_from(s, i as int) == words(s),
        decreases n - i,
    {
        if char_is_space(chars[i]) {
            i = i + 1;
        } else {
            let mut word: Vec<char> = Vec::new();
            word.push(chars[i]);
            let mut j: usize = i + 1;
            while j < n && !char_is_space(chars[j])
                invariant
                    s == chars@,
                    n == s.len(),
                    i < j <= n,
                    !is_space(s[j - 1]),
                    run_len(s, i as int) == (j - i) + run_len(s, j as int),
                    words_from(s, i + 1) == words_from(s, j as int),
                    word@ == s.subrange(i as int, j as int),
                decreases n - j,
            {
                word.push(chars[j]);
                proof {
                    assert(s.subrange(i as int, j as int).push(s[j as int]) =~= s.subrange(
                        i as int,
                        j + 1,
                    ));
                }
                j = j + 1;
            }
            proof {
                assert(run_len(s, j as int) == 0);
                assert(word_views(out@.push(word)) =~= word_views(out@).push(word@));
                assert(word_views(out@).push(word@) + words_from(s, j as int) =~= word_views(out@)
                    + words_from(s, i as int));
            }
            out.push(word);
            i = j;
        }
    }
    proof {
        assert(word_views(out@) + words_from(s, i as int) =~= word_views(out@));
    }
    out
}

/// The offset of the first `@` at or after `from`.
fn find_at_sign(word: &Vec<char>, from: usize) -> (r: usize)
    requires
        from <= word@.len(),
    ensures
        r == first_at_sign(word@, from as int),
        from <= r <= word@.len(),
{
    proof {
        lemma_first_at_sign(word@, from as int);
    }
    let n = word.len();
    let mut i: usize = from;
    while i < n && word[i] != '@'
        invariant
            n == word@.len(),
            from <= i <= n,
            first_at_sign(word@, i as int) == first_at_sign(word@, from as int),
        decreases n - i,
    {
        i = i + 1;
    }
    i
}

/// Reads a target `user@host`.
pub fn parse_target(word: &Vec<char>, port: u16) -> (r: Option<Host>)
    ensures
        opt_host_view(r) == host_of_target(word@, port),
{
    let n = word.len();
    let at = find_at_sign(word, 0);
    if at == 0 || at >= n || n - at < 2 {
        return None;
    }
    let next = find_at_sign(word, at + 1);
    if next < n {
        return None;
    }
    let host = Host {
        name: text_of_range(word, 0, n),
        user: text_of_range(word, 0, at),
        host: text_of_range(word, at + 1, n),
        port: Some(port),
        password: None,
        command: None,
    };
    proof {
        assert(word@.subrange(0, n as int) =~= word@);
    }
    Some(host)
}

/// Reads a connection command that has been cut into words.
pub fn parse_words(words: &Vec<Vec<char>>) -> (r: Option<Host>)
    ensures
        opt_host_view(r) == parse_word_list(word_views(words@)),
{
    let ghost ws = word_views(words@);
    let n = words.len();
    if n == 0 {
        return None;
    }
    let ssh = chars_of("ssh");
    proof {
        assert(ws[0] == words@[0]@);
    }
    if !same_chars(&words[0], &ssh) {
        return None;
    }
    let dash_p = chars_of("-p");
    let mut port: u16 = DEFAULT_PORT;
    let mut i: usize = 1;
    while i < n
        invariant
            ws == word_views(words@),
            n == words@.len(),
            1 <= i <= n + 1,
            dash_p@ == "-p"@,
            ws[0] == "ssh"@,
            target_from(ws, i as int, port) == target_from(ws, 1, DEFAULT_PORT),
        decreases n + 1 - i,
    {
        proof {
            assert(ws[i as int] == words@[i as int]@);
        }
        if same_chars(&words[i], &dash_p) && i + 1 < n {
            proof {
                assert(ws[i + 1] == words@[i + 1]@);
            }
            if let Some(p) = parse_u16(&words[i + 1]) {
                port = p;
                i = i + 2;
                continue ;
            }
        }
        let word = &words[i];
        if !(word.len() > 0 && word[0] == '-') {
            return parse_target(word, port);
        }
        i = i + 1;
    }
    None
}

} // verus!
