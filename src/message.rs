use vstd::prelude::*;

verus! {

/// The tag that opens every message this library writes.
pub open spec fn marker() -> Seq<char> {
    seq!['[', 'b', 'l', 'a', 'm', ']']
}

/// The text a generated message carries: the tag, a newline, then the
/// condition's source exactly as written.
pub open spec fn message_text(source: Seq<char>) -> Seq<char> {
    marker().push('\n') + source
}

/// How one character is written inside a double-quoted literal.
pub open spec fn escape_char(c: char) -> Seq<char> {
    if c == '\\' {
        seq!['\\', '\\']
    } else if c == '"' {
        seq!['\\', '"']
    } else if c == '\n' {
        seq!['\\', 'n']
    } else if c == '\r' {
        seq!['\\', 'r']
    } else if c == '\t' {
        seq!['\\', 't']
    } else {
        seq![c]
    }
}

/// Every character escaped in turn. Doing it character by character is the
/// same as replacing backslashes first, then quotes, newlines, carriage
/// returns and tabs, since no later pass sees a backslash written earlier.
pub open spec fn escaped(s: Seq<char>) -> Seq<char>
    decreases s.len(),
{
    if s.len() == 0 {
        Seq::empty()
    } else {
        escape_char(s[0]) + escaped(s.drop_first())
    }
}

/// The double-quoted literal that carries the message for `source`.
pub open spec fn message_literal(source: Seq<char>) -> Seq<char> {
    seq!['"'] + escaped(message_text(source)) + seq!['"']
}

/// The character that a backslash followed by `c` stands for in a Lua string.
pub open spec fn unescape_char(c: char) -> char {
    if c == 'n' {
        '\n'
    } else if c == 'r' {
        '\r'
    } else if c == 't' {
        '\t'
    } else {
        c
    }
}

/// What the body of a double-quoted literal reads as, for the escapes that
/// a generated message uses (`\\`, `\"`, `\n`, `\r`, `\t`).
pub open spec fn unescaped(s: Seq<char>) -> Seq<char>
    decreases s.len(),
{
    if s.len() == 0 {
        Seq::empty()
    } else if s[0] == '\\' && s.len() >= 2 {
        seq![unescape_char(s[1])] + unescaped(s.skip(2))
    } else {
        seq![s[0]] + unescaped(s.skip(1))
    }
}

/// The value of a quoted literal: its body between the quotes, decoded.
pub open spec fn literal_value(lit: Seq<char>) -> Seq<char> {
    unescaped(lit.subrange(1, lit.len() - 1))
}

/// Escaping works piece by piece.
pub proof fn lemma_escaped_append(a: Seq<char>, b: Seq<char>)
    ensures
        escaped(a + b) == escaped(a) + escaped(b),
    decreases a.len(),
{
    if a.len() == 0 {
        assert(a + b =~= b);
        assert(escaped(a) + escaped(b) =~= escaped(b));
    } else {
        assert((a + b).drop_first() =~= a.drop_first() + b);
        lemma_escaped_append(a.drop_first(), b);
        assert(escaped(a + b) =~= escaped(a) + escaped(b));
    }
}

/// Escaping one character writes its escape.
pub proof fn lemma_escaped_single(c: char)
    ensures
        escaped(seq![c]) == escape_char(c),
{
    reveal_with_fuel(escaped, 2);
    assert(seq![c].drop_first() =~= Seq::<char>::empty());
    assert(seq![c][0] == c);
    assert(escaped(seq![c]) =~= escape_char(c) + Seq::<char>::empty());
}

/// Decoding an escaped text gives the text back.
pub proof fn lemma_unescaped_escaped(s: Seq<char>)
    ensures
        unescaped(escaped(s)) == s,
    decreases s.len(),
{
    if s.len() > 0 {
        let c = s[0];
        let e = escaped(s);
        let rest = escaped(s.drop_first());
        lemma_unescaped_escaped(s.drop_first());
        assert(e == escape_char(c) + rest);
        let k = escape_char(c).len() as int;
        assert(e.skip(k) =~= rest);
        assert(unescaped(e) =~= s);
    }
}

/// The tag is written as it stands: it holds no character that is escaped.
pub proof fn lemma_escaped_marker()
    ensures
        escaped(marker()) == marker(),
{
    let m = marker();
    reveal_with_fuel(escaped, 7);
    assert(m.drop_first() =~= seq!['b', 'l', 'a', 'm', ']']);
    assert(m.drop_first().drop_first() =~= seq!['l', 'a', 'm', ']']);
    assert(m.drop_first().drop_first().drop_first() =~= seq!['a', 'm', ']']);
    assert(m.drop_first().drop_first().drop_first().drop_first() =~= seq!['m', ']']);
    assert(m.drop_first().drop_first().drop_first().drop_first().drop_first() =~= seq![']']);
    assert(m.drop_first().drop_first().drop_first().drop_first().drop_first().drop_first()
        =~= Seq::<char>::empty());
    assert(escaped(m) =~= m);
}

/// A generated literal, read back as a Lua string, is the tag, a newline and
/// the condition's source, whatever backslashes, quotes, newlines, carriage
/// returns or tabs that source holds.
pub proof fn lemma_message_literal_decodes(source: Seq<char>)
    ensures
        literal_value(message_literal(source)) == message_text(source),
{
    let body = escaped(message_text(source));
    let lit = message_literal(source);
    assert(lit.subrange(1, lit.len() - 1) =~= body);
    lemma_unescaped_escaped(message_text(source));
}

/// A generated literal opens with a quote and then the tag.
pub proof fn lemma_message_literal_starts_with_marker(source: Seq<char>)
    ensures
        message_literal(source).len() >= 1,
        message_literal(source)[0] == '"',
        marker().is_prefix_of(message_literal(source).skip(1)),
{
    let lit = message_literal(source);
    let tail = seq!['\n'] + source;
    assert(message_text(source) =~= marker() + tail);
    lemma_escaped_append(marker(), tail);
    lemma_escaped_marker();
    assert(lit.skip(1).subrange(0, marker().len() as int) =~= marker());
}

/// Escapes `text` for a double-quoted literal.
pub fn escape(text: &str) -> (r: String)
    ensures
        r@ == escaped(text@),
{
    let n = text.unicode_len();
    let mut out = String::new();
    let mut i: usize = 0;
    proof {
        assert(text@.subrange(0, 0) =~= Seq::<char>::empty());
    }
    while i < n
        invariant
            n == text@.len(),
            i <= n,
            out@ == escaped(text@.subrange(0, i as int)),
        decreases n - i,
    {
        let c = text.get_char(i);
        proof {
            assert(text@.subrange(0, i + 1) =~= text@.subrange(0, i as int) + seq![c]);
            lemma_escaped_append(text@.subrange(0, i as int), seq![c]);
            lemma_escaped_single(c);
            reveal_strlit("\\\\");
            reveal_strlit("\\\"");
            reveal_strlit("\\n");
            reveal_strlit("\\r");
            reveal_strlit("\\t");
        }
        if c == '\\' {
            out.append("\\\\");
        } else if c == '"' {
            out.append("\\\"");
        } else if c == '\n' {
            out.append("\\n");
        } else if c == '\r' {
            out.append("\\r");
        } else if c == '\t' {
            out.append("\\t");
        } else {
            let one = text.substring_char(i, i + 1);
            assert(one@ =~= seq![c]);
            out.append(one);
        }
        i = i + 1;
    }
    assert(text@.subrange(0, n as int) =~= text@);
    out
}

/// The double-quoted literal that carries the message for a condition whose
/// source text is `source`.
pub fn message_for(source: &str) -> (r: String)
    ensures
        r@ == message_literal(source@),
{
    let mut text = String::new();
    text.append("[blam]\n");
    text.append(source);
    proof {
        reveal_strlit("[blam]\n");
        reveal_strlit("\"");
        assert(text@ =~= message_text(source@));
    }
    let body = escape(text.as_str());
    let mut out = String::new();
    out.append("\"");
    out.append(body.as_str());
    out.append("\"");
    proof {
        assert(out@ =~= message_literal(source@));
    }
    out
}

} // verus!
