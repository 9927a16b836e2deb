//! Text renderings of a configuration: the copy-pasteable snapshot command
//! line (with POSIX shell quoting) and the summary printed after saving a
//! profile.

use vstd::prelude::*;

use crate::config::{opt_view, Profile, ResolvedConfig};
use crate::strmap::{strictly_sorted, StrMap};
use crate::text::{chars_of, join, join_strings, owned, push_char, string_views};

verus! {

// ---------------------------------------------------------------------------
// POSIX shell quoting
// ---------------------------------------------------------------------------

/// Characters that pass through the shell bare: ASCII alphanumerics and
/// `/._-:@+=,%`.
pub open spec fn is_safe_char(c: char) -> bool {
    ||| ('a' <= c && c <= 'z')
    ||| ('A' <= c && c <= 'Z')
    ||| ('0' <= c && c <= '9')
    ||| c == '/' || c == '.' || c == '_' || c == '-' || c == ':' || c == '@' || c == '+'
    ||| c == '=' || c == ',' || c == '%'
}

/// A non-empty value made only of safe characters.
pub open spec fn is_safe_word(s: Seq<char>) -> bool {
    s.len() > 0 && forall|i: int| 0 <= i < s.len() ==> is_safe_char(#[trigger] s[i])
}

/// Inside single quotes each `'` is written as `'\''`.
pub open spec fn escape_quotes(s: Seq<char>) -> Seq<char>
    decreases s.len(),
{
    if s.len() == 0 {
        Seq::empty()
    } else {
        (if s[0] == '\'' {
            seq!['\'', '\\', '\'', '\'']
        } else {
            seq![s[0]]
        }) + escape_quotes(s.drop_first())
    }
}

/// The shell word for `s`: bare when safe, else single-quoted.
pub open spec fn shell_quoted(s: Seq<char>) -> Seq<char> {
    if is_safe_word(s) {
        s
    } else {
        seq!['\''] + escape_quotes(s) + seq!['\'']
    }
}

/// What a POSIX shell makes of one word: outside quotes `'` opens a
/// single-quoted run and `\` escapes the next character; inside, every
/// character is literal up to the closing `'`.
pub open spec fn shell_unquote(s: Seq<char>, quoted: bool) -> Seq<char>
    decreases s.len(),
{
    if s.len() == 0 {
        Seq::empty()
    } else if quoted {
        if s[0] == '\'' {
            shell_unquote(s.drop_first(), false)
        } else {
            seq![s[0]] + shell_unquote(s.drop_first(), true)
        }
    } else if s[0] == '\'' {
        shell_unquote(s.drop_first(), true)
    } else if s[0] == '\\' && s.len() >= 2 {
        seq![s[1]] + shell_unquote(s.skip(2), false)
    } else {
        seq![s[0]] + shell_unquote(s.drop_first(), false)
    }
}

proof fn lemma_escape_append(a: Seq<char>, b: Seq<char>)
    ensures
        escape_quotes(a + b) == escape_quotes(a) + escape_quotes(b),
    decreases a.len(),
{
    if a.len() == 0 {
        assert(a + b == b);
    } else {
        assert((a + b).drop_first() == a.drop_first() + b);
        assert((a + b)[0] == a[0]);
        lemma_escape_append(a.drop_first(), b);
    }
}

proof fn lemma_escape_push(a: Seq<char>, c: char)
    ensures
        escape_quotes(a.push(c)) == escape_quotes(a) + if c == '\'' {
            seq!['\'', '\\', '\'', '\'']
        } else {
            seq![c]
        },
{
    let piece = if c == '\'' {
        seq!['\'', '\\', '\'', '\'']
    } else {
        seq![c]
    };
    assert(a.push(c) == a + seq![c]);
    lemma_escape_append(a, seq![c]);
    assert(seq![c].drop_first() == Seq::<char>::empty());
    assert(escape_quotes(seq![c]) == piece + escape_quotes(Seq::<char>::empty()));
    assert(piece + Seq::<char>::empty() == piece);
}

proof fn lemma_unquote_escaped(s: Seq<char>, rest: Seq<char>)
    ensures
        shell_unquote(escape_quotes(s) + seq!['\''] + rest, true) == s + shell_unquote(rest, false),
    decreases s.len(),
{
    if s.len() == 0 {
        assert(escape_quotes(s) == Seq::<char>::empty());
        let w = escape_quotes(s) + seq!['\''] + rest;
        assert(w == seq!['\''] + rest);
        assert(w[0] == '\'');
        assert(w.drop_first() == rest);
        assert(shell_unquote(w, true) == shell_unquote(rest, false));
        assert(s + shell_unquote(rest, false) == shell_unquote(rest, false));
    } else {
        let tail = escape_quotes(s.drop_first()) + seq!['\''] + rest;
        lemma_unquote_escaped(s.drop_first(), rest);
        assert(s == seq![s[0]] + s.drop_first());
        if s[0] == '\'' {
            let w = seq!['\'', '\\', '\'', '\''] + tail;
            assert(escape_quotes(s) + seq!['\''] + rest == w);
            assert(w.drop_first() == seq!['\\', '\'', '\''] + tail);
            let w1 = seq!['\\', '\'', '\''] + tail;
            assert(w1.skip(2) == seq!['\''] + tail);
            let w2 = seq!['\''] + tail;
            assert(w2.drop_first() == tail);
            assert(shell_unquote(w2, false) == shell_unquote(tail, true));
            assert(shell_unquote(w1, false) == seq!['\''] + shell_unquote(w2, false));
            assert(shell_unquote(w, true) == shell_unquote(w1, false));
            assert(seq!['\''] + (s.drop_first() + shell_unquote(rest, false)) == s + shell_unquote(
                rest,
                false,
            ));
        } else {
            let w = seq![s[0]] + tail;
            assert(escape_quotes(s) + seq!['\''] + rest == w);
            assert(w.drop_first() == tail);
            assert(shell_unquote(w, true) == seq![s[0]] + shell_unquote(tail, true));
            assert(seq![s[0]] + (s.drop_first() + shell_unquote(rest, false)) == s + shell_unquote(
                rest,
                false,
            ));
        }
    }
}

proof fn lemma_unquote_safe(s: Seq<char>)
    requires
        forall|i: int| 0 <= i < s.len() ==> is_safe_char(#[trigger] s[i]),
    ensures
        shell_unquote(s, false) == s,
    decreases s.len(),
{
    if s.len() > 0 {
        assert(is_safe_char(s[0]));
        assert forall|i: int| 0 <= i < s.drop_first().len() implies is_safe_char(
            #[trigger] s.drop_first()[i],
        ) by {
            assert(s.drop_first()[i] == s[i + 1]);
        }
        lemma_unquote_safe(s.drop_first());
        assert(s == seq![s[0]] + s.drop_first());
    }
}

/// Quoting round-trips: the shell reads back exactly the original value
/// from the word `shell_quote` produces, and a safe value is left bare.
pub proof fn law_shell_quote_round_trip(s: Seq<char>)
    ensures
        shell_unquote(shell_quoted(s), false) == s,
        is_safe_word(s) ==> shell_quoted(s) == s,
{
    if is_safe_word(s) {
        lemma_unquote_safe(s);
    } else {
        let w = seq!['\''] + escape_quotes(s) + seq!['\''];
        assert(w.drop_first() == escape_quotes(s) + seq!['\''] + Seq::<char>::empty());
        lemma_unquote_escaped(s, Seq::empty());
        assert(s + Seq::<char>::empty() == s);
    }
}

/// Characters a POSIX shell treats specially outside quotes: blanks split
/// words; `& ; | < > ( ) $ " * ? [ ] # ~ { } ! ^` and the backquote
/// control, expand or redirect.
pub open spec fn shell_special(c: char) -> bool {
    c == ' ' || c == '\t' || c == '\n' || c == '&' || c == ';' || c == '|' || c == '<' || c
        == '>' || c == '(' || c == ')' || c == '$' || c == '`' || c == '"' || c == '*' || c
        == '?' || c == '[' || c == ']' || c == '#' || c == '~' || c == '{' || c == '}' || c
        == '!' || c == '^'
}

/// The word `w` is inert for the shell: outside single quotes every
/// character is either a backslash escape or not special, and every quote
/// that opens also closes.
pub open spec fn shell_inert(w: Seq<char>, quoted: bool) -> bool
    decreases w.len(),
{
    if w.len() == 0 {
        !quoted
    } else if quoted {
        if w[0] == '\'' {
            shell_inert(w.drop_first(), false)
        } else {
            shell_inert(w.drop_first(), true)
        }
    } else if w[0] == '\'' {
        shell_inert(w.drop_first(), true)
    } else if w[0] == '\\' {
        w.len() >= 2 && shell_inert(w.skip(2), false)
    } else {
        !shell_special(w[0]) && shell_inert(w.drop_first(), false)
    }
}

proof fn lemma_inert_escaped(s: Seq<char>, rest: Seq<char>)
    ensures
        shell_inert(escape_quotes(s) + seq!['\''] + rest, true) == shell_inert(rest, false),
    decreases s.len(),
{
    if s.len() == 0 {
        assert(escape_quotes(s) == Seq::<char>::empty());
        let w = escape_quotes(s) + seq!['\''] + rest;
        assert(w == seq!['\''] + rest);
        assert(w.drop_first() == rest);
        assert(w[0] == '\'');
        assert(shell_inert(w, true) == shell_inert(rest, false));
    } else {
        let tail = escape_quotes(s.drop_first()) + seq!['\''] + rest;
        lemma_inert_escaped(s.drop_first(), rest);
        if s[0] == '\'' {
            let w = seq!['\'', '\\', '\'', '\''] + tail;
            assert(escape_quotes(s) + seq!['\''] + rest == w);
            let w1 = seq!['\\', '\'', '\''] + tail;
            assert(w.drop_first() == w1);
            assert(w[0] == '\'');
            assert(shell_inert(w, true) == shell_inert(w1, false));
            let w2 = seq!['\''] + tail;
            assert(w1.skip(2) == w2);
            assert(w1[0] == '\\' && w1.len() >= 2);
            assert(shell_inert(w1, false) == shell_inert(w2, false));
            assert(w2.drop_first() == tail);
            assert(w2[0] == '\'');
            assert(shell_inert(w2, false) == shell_inert(tail, true));
        } else {
            let w = seq![s[0]] + tail;
            assert(escape_quotes(s) + seq!['\''] + rest == w);
            assert(w.drop_first() == tail);
            assert(w[0] == s[0]);
            assert(shell_inert(w, true) == shell_inert(tail, true));
        }
    }
}

proof fn lemma_inert_safe(s: Seq<char>)
    requires
        forall|i: int| 0 <= i < s.len() ==> is_safe_char(#[trigger] s[i]),
    ensures
        shell_inert(s, false),
    decreases s.len(),
{
    if s.len() > 0 {
        assert(is_safe_char(s[0]));
        assert forall|i: int| 0 <= i < s.drop_first().len() implies is_safe_char(
            #[trigger] s.drop_first()[i],
        ) by {
            assert(s.drop_first()[i] == s[i + 1]);
        }
        lemma_inert_safe(s.drop_first());
    }
}

/// A character the documentation lets through bare: an ASCII letter or
/// digit, or one of `/ . _ - : @ + = , %`.
pub open spec fn documented_bare(c: char) -> bool {
    ('a' <= c <= 'z') || ('A' <= c <= 'Z') || ('0' <= c <= '9') || seq![
        '/',
        '.',
        '_',
        '-',
        ':',
        '@',
        '+',
        '=',
        ',',
        '%',
    ].contains(c)
}

/// What `shell_quote` writes is safe to paste into a shell: it is never
/// empty, nothing in it is special to the shell outside quotes, and every
/// quote it opens it closes. A value is written bare exactly when it is
/// non-empty and made only of ASCII letters, digits and `/ . _ - : @ + = ,
/// %`; any other value is written between single quotes.
pub proof fn law_shell_quote_is_inert(s: Seq<char>)
    ensures
        shell_quoted(s).len() > 0,
        shell_inert(shell_quoted(s), false),
        (s.len() > 0 && forall|i: int| 0 <= i < s.len() ==> documented_bare(#[trigger] s[i]))
            ==> shell_quoted(s) == s,
        !(s.len() > 0 && forall|i: int| 0 <= i < s.len() ==> documented_bare(#[trigger] s[i]))
            ==> shell_quoted(s)[0] == '\'' && shell_quoted(s).last() == '\'',
{
    let p = seq!['/', '.', '_', '-', ':', '@', '+', '=', ',', '%'];
    assert forall|c: char| is_safe_char(c) <==> documented_bare(c) by {
        if documented_bare(c) && !(('a' <= c <= 'z') || ('A' <= c <= 'Z') || ('0' <= c <= '9')) {
            let k = choose|k: int| 0 <= k < p.len() && p[k] == c;
            assert(0 <= k < 10);
        }
        if c == '/' { assert(p[0] == c); }
        if c == '.' { assert(p[1] == c); }
        if c == '_' { assert(p[2] == c); }
        if c == '-' { assert(p[3] == c); }
        if c == ':' { assert(p[4] == c); }
        if c == '@' { assert(p[5] == c); }
        if c == '+' { assert(p[6] == c); }
        if c == '=' { assert(p[7] == c); }
        if c == ',' { assert(p[8] == c); }
        if c == '%' { assert(p[9] == c); }
    }
    if is_safe_word(s) {
        lemma_inert_safe(s);
    } else {
        let w = seq!['\''] + escape_quotes(s) + seq!['\''];
        assert(w.drop_first() == escape_quotes(s) + seq!['\''] + Seq::<char>::empty());
        lemma_inert_escaped(s, Seq::empty());
    }
}

fn safe_char(c: char) -> (b: bool)
    ensures
        b == is_safe_char(c),
{
    ('a' <= c && c <= 'z') || ('A' <= c && c <= 'Z') || ('0' <= c && c <= '9') || c == '/' || c
        == '.' || c == '_' || c == '-' || c == ':' || c == '@' || c == '+' || c == '=' || c == ','
        || c == '%'
}

/// Minimal shell quoting: a conservative charset passes through bare,
/// everything else is single-quoted POSIX-style.
pub fn shell_quote(value: &str) -> (r: String)
    ensures
        r@ == shell_quoted(value@),
{
    let v = chars_of(value);
    let mut safe = v.len() > 0;
    let mut i: usize = 0;
    while i < v.len()
        invariant
            i <= v.len(),
            safe == (v@.len() > 0 && forall|j: int| 0 <= j < i ==> is_safe_char(#[trigger] v@[j])),
        decreases v.len() - i,
    {
        if !safe_char(v[i]) {
            safe = false;
        }
        i = i + 1;
    }
    if safe {
        return owned(value);
    }
    let mut r = String::new();
    push_char(&mut r, '\'');
    for k in 0..v.len()
        invariant
            r@ == seq!['\''] + escape_quotes(v@.take(k as int)),
    {
        let c = v[k];
        proof {
            assert(v@.take(k + 1) == v@.take(k as int).push(c));
            lemma_escape_push(v@.take(k as int), c);
        }
        if c == '\'' {
            push_char(&mut r, '\'');
            push_char(&mut r, '\\');
            push_char(&mut r, '\'');
            push_char(&mut r, '\'');
        } else {
            push_char(&mut r, c);
        }
    }
    assert(v@.take(v.len() as int) == v@);
    push_char(&mut r, '\'');
    r
}

// ---------------------------------------------------------------------------
// Snapshot command line
// ---------------------------------------------------------------------------

/// `--param KEY=VALUE` words for the given keys/values, in order, each
/// `KEY=VALUE` shell-quoted.
pub open spec fn param_words(keys: Seq<Seq<char>>, vals: Seq<Seq<char>>) -> Seq<Seq<char>>
    decreases keys.len(),
{
    if keys.len() == 0 {
        Seq::empty()
    } else {
        param_words(keys.drop_last(), vals.drop_last()) + seq![
            "--param"@,
            shell_quoted(keys.last() + "="@ + vals.last()),
        ]
    }
}

/// `--param KEY=VALUE` words as the shell reads them back (unquoted).
pub open spec fn plain_param_words(keys: Seq<Seq<char>>, vals: Seq<Seq<char>>) -> Seq<
    Seq<char>,
>
    decreases keys.len(),
{
    if keys.len() == 0 {
        Seq::empty()
    } else {
        plain_param_words(keys.drop_last(), vals.drop_last()) + seq![
            "--param"@,
            keys.last() + "="@ + vals.last(),
        ]
    }
}

/// An optional slot as zero or one quoted word.
pub open spec fn slot_words(o: Option<Seq<char>>) -> Seq<Seq<char>> {
    match o {
        Some(s) => seq![shell_quoted(s)],
        None => Seq::empty(),
    }
}

/// Each raw arg quoted, after a `--` separator; nothing when there are none.
pub open spec fn raw_words(raw: Seq<Seq<char>>) -> Seq<Seq<char>> {
    if raw.len() == 0 {
        Seq::empty()
    } else {
        seq!["--"@] + raw.map_values(|a: Seq<char>| shell_quoted(a))
    }
}

/// The words of `appcast run ...` reproducing a configuration.
pub open spec fn snapshot_words(c: ResolvedConfig) -> Seq<Seq<char>> {
    seq!["appcast"@, "run"@, shell_quoted(c.transporter@)] + slot_words(opt_view(c.target))
        + slot_words(opt_view(c.app)) + param_words(c.params.keys(), c.params.vals()) + raw_words(
        string_views(c.raw_args@),
    )
}

/// What the shell reads back from each word of a list.
pub open spec fn shell_words_read(ws: Seq<Seq<char>>) -> Seq<Seq<char>> {
    ws.map_values(|w: Seq<char>| shell_unquote(w, false))
}

/// An optional slot as zero or one plain word.
pub open spec fn plain_slot(o: Option<Seq<char>>) -> Seq<Seq<char>> {
    match o {
        Some(s) => seq![s],
        None => Seq::empty(),
    }
}

/// Raw args as plain words after `--`; nothing when there are none.
pub open spec fn plain_raw(raw: Seq<Seq<char>>) -> Seq<Seq<char>> {
    if raw.len() == 0 {
        Seq::empty()
    } else {
        seq!["--"@] + raw
    }
}

/// Every character of `s` passes through the shell bare.
pub open spec fn all_safe(s: Seq<char>) -> bool {
    forall|i: int| 0 <= i < s.len() ==> is_safe_char(#[trigger] s[i])
}

proof fn lemma_read_concat(a: Seq<Seq<char>>, b: Seq<Seq<char>>)
    ensures
        shell_words_read(a + b) == shell_words_read(a) + shell_words_read(b),
{
    assert(shell_words_read(a + b) =~= shell_words_read(a) + shell_words_read(b));
}

proof fn lemma_read_safe_literal(s: Seq<char>)
    requires
        all_safe(s),
    ensures
        shell_unquote(s, false) == s,
{
    lemma_unquote_safe(s);
}

proof fn lemma_read_params(keys: Seq<Seq<char>>, vals: Seq<Seq<char>>)
    ensures
        shell_words_read(param_words(keys, vals)) == plain_param_words(keys, vals),
    decreases keys.len(),
{
    if keys.len() > 0 {
        lemma_read_params(keys.drop_last(), vals.drop_last());
        let kv = keys.last() + "="@ + vals.last();
        reveal_strlit("--param");
        lemma_read_safe_literal("--param"@);
        law_shell_quote_round_trip(kv);
        let tail = seq!["--param"@, shell_quoted(kv)];
        assert(shell_words_read(tail) =~= seq!["--param"@, kv]);
        lemma_read_concat(param_words(keys.drop_last(), vals.drop_last()), tail);
    }
}

/// The snapshot line reads back word for word: what the shell makes of its
/// words is `appcast run`, the transporter, the present slots, one
/// `--param KEY=VALUE` per param in ascending key order, and the raw args
/// after `--`, each exactly as configured.
pub proof fn law_snapshot_reads_back(c: ResolvedConfig)
    ensures
        shell_words_read(snapshot_words(c)) == seq!["appcast"@, "run"@, c.transporter@]
            + plain_slot(opt_view(c.target)) + plain_slot(opt_view(c.app)) + plain_param_words(
            c.params.keys(),
            c.params.vals(),
        ) + plain_raw(string_views(c.raw_args@)),
{
    reveal_strlit("appcast");
    reveal_strlit("run");
    reveal_strlit("--");
    lemma_read_safe_literal("appcast"@);
    lemma_read_safe_literal("run"@);
    lemma_read_safe_literal("--"@);
    law_shell_quote_round_trip(c.transporter@);
    let head = seq!["appcast"@, "run"@, shell_quoted(c.transporter@)];
    assert(shell_words_read(head) =~= seq!["appcast"@, "run"@, c.transporter@]);
    let t = slot_words(opt_view(c.target));
    let a = slot_words(opt_view(c.app));
    match opt_view(c.target) {
        Some(s) => {
            law_shell_quote_round_trip(s);
            assert(shell_words_read(t) =~= plain_slot(opt_view(c.target)));
        },
        None => {
            assert(shell_words_read(t) =~= plain_slot(opt_view(c.target)));
        },
    }
    match opt_view(c.app) {
        Some(s) => {
            law_shell_quote_round_trip(s);
            assert(shell_words_read(a) =~= plain_slot(opt_view(c.app)));
        },
        None => {
            assert(shell_words_read(a) =~= plain_slot(opt_view(c.app)));
        },
    }
    let p = param_words(c.params.keys(), c.params.vals());
    lemma_read_params(c.params.keys(), c.params.vals());
    let raw = string_views(c.raw_args@);
    let r = raw_words(raw);
    if raw.len() > 0 {
        let quoted = raw.map_values(|x: Seq<char>| shell_quoted(x));
        assert forall|i: int| 0 <= i < raw.len() implies #[trigger] shell_unquote(quoted[i], false)
            == raw[i] by {
            law_shell_quote_round_trip(raw[i]);
        }
        lemma_read_concat(seq!["--"@], quoted);
        assert(shell_words_read(seq!["--"@]) =~= seq!["--"@]);
        assert(shell_words_read(quoted) =~= raw);
    }
    assert(shell_words_read(r) =~= plain_raw(raw));
    lemma_read_concat(head, t);
    lemma_read_concat(head + t, a);
    lemma_read_concat(head + t + a, p);
    lemma_read_concat(head + t + a + p, r);
}

fn push_word(words: &mut Vec<String>, w: String)
    ensures
        string_views(final(words)@) == string_views(old(words)@).push(w@),
{
    words.push(w);
    assert(string_views(words@) =~= string_views(old(words)@).push(w@));
}

/// Renders the final configuration back into one shell line: transporter,
/// slots and each `KEY=VALUE` shell-quoted, params in ascending key order,
/// raw args (quoted) after `--`.
pub fn render_snapshot(config: &ResolvedConfig) -> (r: String)
    ensures
        r@ == join(snapshot_words(*config), " "@),
        strictly_sorted(config.params.keys()),
        forall|k: Seq<char>| #[trigger]
            config.params@.contains_key(k) <==> config.params.keys().contains(k),
        forall|i: int|
            0 <= i < config.params.keys().len() ==> #[trigger] config.params@[config.params.keys()[i]]
                == config.params.vals()[i],
{
    proof {
        use_type_invariant(&config.params);
        config.params.lemma_enumeration();
    }
    let mut words: Vec<String> = Vec::new();
    push_word(&mut words, owned("appcast"));
    push_word(&mut words, owned("run"));
    push_word(&mut words, shell_quote(config.transporter.as_str()));
    assert(string_views(words@) == seq!["appcast"@, "run"@, shell_quoted(config.transporter@)]);
    match &config.target {
        Some(t) => push_word(&mut words, shell_quote(t.as_str())),
        None => {},
    }
    match &config.app {
        Some(a) => push_word(&mut words, shell_quote(a.as_str())),
        None => {},
    }
    let ghost head = string_views(words@);
    assert(head == seq!["appcast"@, "run"@, shell_quoted(config.transporter@)] + slot_words(
        opt_view(config.target),
    ) + slot_words(opt_view(config.app)));
    let ghost keys = config.params.keys();
    let ghost vals = config.params.vals();
    let n = config.params.len();
    for i in 0..n
        invariant
            n == keys.len(),
            n == vals.len(),
            n == config.params.size(),
            keys == config.params.keys(),
            vals == config.params.vals(),
            string_views(words@) == head + param_words(keys.take(i as int), vals.take(i as int)),
    {
        push_word(&mut words, owned("--param"));
        let mut kv = String::new();
        kv.append(config.params.key_at(i).as_str());
        kv.append("=");
        kv.append(config.params.value_at(i).as_str());
        push_word(&mut words, shell_quote(kv.as_str()));
        assert(keys.take(i + 1).drop_last() == keys.take(i as int));
        assert(vals.take(i + 1).drop_last() == vals.take(i as int));
    }
    assert(keys.take(n as int) == keys);
    assert(vals.take(n as int) == vals);
    let ghost mid = string_views(words@);
    if config.raw_args.len() > 0 {
        push_word(&mut words, owned("--"));
        let ghost raw = string_views(config.raw_args@);
        for i in 0..config.raw_args.len()
            invariant
                raw == string_views(config.raw_args@),
                string_views(words@) == mid + seq!["--"@] + raw.take(i as int).map_values(
                    |a: Seq<char>| shell_quoted(a),
                ),
        {
            push_word(&mut words, shell_quote(config.raw_args[i].as_str()));
            assert(raw.take(i + 1).map_values(|a: Seq<char>| shell_quoted(a)) =~= raw.take(
                i as int,
            ).map_values(|a: Seq<char>| shell_quoted(a)).push(shell_quoted(raw[i as int])));
        }
        assert(raw.take(config.raw_args.len() as int) == raw);
    }
    assert(string_views(words@) =~= snapshot_words(*config));
    join_strings(&words, " ")
}

// ---------------------------------------------------------------------------
// Save summary
// ---------------------------------------------------------------------------

/// A slot's text, or `-` when absent.
pub open spec fn dash(o: Option<Seq<char>>) -> Seq<char> {
    match o {
        Some(s) => s,
        None => "-"@,
    }
}

/// `KEY=VALUE` for each entry, in order.
pub open spec fn kv_words(keys: Seq<Seq<char>>, vals: Seq<Seq<char>>) -> Seq<Seq<char>> {
    Seq::new(keys.len(), |i: int| keys[i] + "="@ + vals[i])
}

/// The two-line summary echoed after `profile save`.
pub open spec fn save_summary(p: Profile) -> Seq<char> {
    "  transporter="@ + p.transporter@ + " target="@ + dash(opt_view(p.target)) + " app="@ + dash(
        opt_view(p.app),
    ) + "\n  params{"@ + join(kv_words(p.params.keys(), p.params.vals()), " "@) + "} raw["@
        + join(string_views(p.raw_args@), " "@) + "]"@
}

fn kv_strings(m: &StrMap) -> (r: Vec<String>)
    ensures
        string_views(r@) == kv_words(m.keys(), m.vals()),
{
    proof {
        use_type_invariant(m);
        m.lemma_enumeration();
    }
    let mut r: Vec<String> = Vec::new();
    let n = m.len();
    for i in 0..n
        invariant
            n == m.size(),
            m.keys().len() == m.size(),
            m.vals().len() == m.size(),
            string_views(r@) == kv_words(m.keys(), m.vals()).take(i as int),
    {
        let mut kv = String::new();
        kv.append(m.key_at(i).as_str());
        kv.append("=");
        kv.append(m.value_at(i).as_str());
        push_word(&mut r, kv);
        assert(kv_words(m.keys(), m.vals()).take(i + 1) =~= kv_words(m.keys(), m.vals()).take(
            i as int,
        ).push(m.keys()[i as int] + "="@ + m.vals()[i as int]));
    }
    assert(kv_words(m.keys(), m.vals()).take(m.size() as int) =~= kv_words(m.keys(), m.vals()));
    r
}

fn append_dash(r: &mut String, o: &Option<String>)
    ensures
        final(r)@ == old(r)@ + dash(opt_view(*o)),
{
    match o {
        Some(s) => r.append(s.as_str()),
        None => r.append("-"),
    }
}

/// Echo of the parsed slots after saving, so positional misalignment is
/// visible at once (`-` marks an absent slot).
pub fn render_save_summary(profile: &Profile) -> (r: String)
    ensures
        r@ == save_summary(*profile),
{
    let mut r = owned("  transporter=");
    r.append(profile.transporter.as_str());
    r.append(" target=");
    append_dash(&mut r, &profile.target);
    r.append(" app=");
    append_dash(&mut r, &profile.app);
    r.append("\n  params{");
    let kvs = kv_strings(&profile.params);
    let joined = join_strings(&kvs, " ");
    r.append(joined.as_str());
    r.append("} raw[");
    let raw = join_strings(&profile.raw_args, " ");
    r.append(raw.as_str());
    r.append("]");
    r
}

} // verus!
