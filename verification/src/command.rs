//! Command serialization: one command name, each argument quoted and
//! escaped when it needs it, and the protocol's line terminator.

use vstd::prelude::*;

use crate::text::has_prefix;

verus! {

/// A character that forces an argument into quotes.
pub open spec fn quoting_char(c: char) -> bool {
    c == ' ' || c == '\t' || c == '\'' || c == '"' || c == '\\'
}

/// An argument is quoted when it is empty or holds whitespace or quoting
/// characters.
pub open spec fn spec_needs_quoting(a: Seq<char>) -> bool {
    a.len() == 0 || exists|i: int| 0 <= i < a.len() && quoting_char(#[trigger] a[i])
}

/// One escaped character: a backslash before a double quote or a
/// backslash, the character itself otherwise.
pub open spec fn spec_escape_char(c: char) -> Seq<char> {
    if c == '"' || c == '\\' {
        seq!['\\', c]
    } else {
        seq![c]
    }
}

/// An argument's text with every quote and backslash escaped.
pub open spec fn spec_escape(a: Seq<char>) -> Seq<char>
    decreases a.len(),
{
    if a.len() == 0 {
        Seq::empty()
    } else {
        spec_escape_char(a[0]) + spec_escape(a.drop_first())
    }
}

proof fn lemma_escape_snoc(a: Seq<char>, c: char)
    ensures
        spec_escape(a.push(c)) == spec_escape(a) + spec_escape_char(c),
    decreases a.len(),
{
    if a.len() == 0 {
        assert(a.push(c)[0] == c);
        assert(a.push(c).drop_first() =~= Seq::<char>::empty());
        assert(spec_escape(Seq::<char>::empty()) == Seq::<char>::empty());
        assert(spec_escape(a.push(c)) == spec_escape_char(c) + Seq::<char>::empty());
        assert(spec_escape_char(c) + Seq::<char>::empty() =~= spec_escape_char(c));
        assert(spec_escape(a) + spec_escape_char(c) =~= spec_escape_char(c));
    } else {
        assert(a.push(c).drop_first() =~= a.drop_first().push(c));
        lemma_escape_snoc(a.drop_first(), c);
        assert(spec_escape_char(a[0]) + (spec_escape(a.drop_first()) + spec_escape_char(c))
            =~= (spec_escape_char(a[0]) + spec_escape(a.drop_first())) + spec_escape_char(c));
    }
}

/// An argument's wire form: quoted and escaped when it needs quoting, as
/// it stands otherwise.
pub open spec fn spec_quote_arg(a: Seq<char>) -> Seq<char> {
    if spec_needs_quoting(a) {
        seq!['"'] + spec_escape(a) + seq!['"']
    } else {
        a
    }
}

/// The wire form of a command's arguments: a space before each quoted
/// argument.
pub open spec fn spec_encode_args(args: Seq<Seq<char>>) -> Seq<char>
    decreases args.len(),
{
    if args.len() == 0 {
        Seq::empty()
    } else {
        seq![' '] + spec_quote_arg(args[0]) + spec_encode_args(args.drop_first())
    }
}

proof fn lemma_encode_args_snoc(args: Seq<Seq<char>>, a: Seq<char>)
    ensures
        spec_encode_args(args.push(a)) == spec_encode_args(args) + (seq![' '] + spec_quote_arg(a)),
    decreases args.len(),
{
    if args.len() == 0 {
        assert(args.push(a)[0] == a);
        assert(args.push(a).drop_first() =~= Seq::<Seq<char>>::empty());
        assert(spec_encode_args(Seq::<Seq<char>>::empty()) == Seq::<char>::empty());
        assert(spec_encode_args(args.push(a)) == seq![' '] + spec_quote_arg(a)
            + Seq::<char>::empty());
        assert(seq![' '] + spec_quote_arg(a) + Seq::<char>::empty() =~= seq![' ']
            + spec_quote_arg(a));
        assert(spec_encode_args(args) + (seq![' '] + spec_quote_arg(a)) =~= seq![' ']
            + spec_quote_arg(a));
    } else {
        assert(args.push(a).drop_first() =~= args.drop_first().push(a));
        lemma_encode_args_snoc(args.drop_first(), a);
        assert(seq![' '] + spec_quote_arg(args[0]) + (spec_encode_args(args.drop_first())
            + (seq![' '] + spec_quote_arg(a))) =~= (seq![' '] + spec_quote_arg(args[0])
            + spec_encode_args(args.drop_first())) + (seq![' '] + spec_quote_arg(a)));
    }
}

/// One full command line: the command, the encoded arguments, and the
/// newline terminator.
pub open spec fn spec_encode_command(cmd: Seq<char>, args: Seq<Seq<char>>) -> Seq<char> {
    cmd + spec_encode_args(args) + seq!['\n']
}

/// Whether an argument must be quoted on the wire.
fn needs_quoting(arg: &str) -> (r: bool)
    ensures
        r == spec_needs_quoting(arg@),
{
    let len = arg.unicode_len();
    if len == 0 {
        return true;
    }
    let mut i: usize = 0;
    while i < len
        invariant
            0 <= i <= len,
            len == arg@.len(),
            forall|j: int| 0 <= j < i ==> !quoting_char(#[trigger] arg@[j]),
        decreases len - i,
    {
        let c = arg.get_char(i);
        if c == ' ' || c == '\t' || c == '\'' || c == '"' || c == '\\' {
            return true;
        }
        i = i + 1;
    }
    false
}

/// Appends an argument's wire form.
fn quote_arg_into(out: &mut String, arg: &str)
    ensures
        final(out)@ == old(out)@ + spec_quote_arg(arg@),
{
    if !needs_quoting(arg) {
        out.append(arg);
        return;
    }
    proof {
        reveal_strlit("\"");
        reveal_strlit("\\");
    }
    let ghost base = old(out)@;
    out.append("\"");
    proof {
        assert(out@ =~= base + seq!['"']);
        assert(spec_escape(arg@.subrange(0, 0)) =~= Seq::<char>::empty());
        assert(out@ =~= base + seq!['"'] + spec_escape(arg@.subrange(0, 0)));
    }
    let len = arg.unicode_len();
    let mut i: usize = 0;
    while i < len
        invariant
            0 <= i <= len,
            len == arg@.len(),
            out@ == base + seq!['"'] + spec_escape(arg@.subrange(0, i as int)),
        decreases len - i,
    {
        proof {
            reveal_strlit("\"");
            reveal_strlit("\\");
        }
        let c = arg.get_char(i);
        if c == '"' || c == '\\' {
            out.append("\\");
        }
        out.append(arg.substring_char(i, i + 1));
        proof {
            lemma_escape_snoc(arg@.subrange(0, i as int), arg@[i as int]);
            assert(arg@.subrange(0, i as int).push(arg@[i as int]) =~= arg@.subrange(
                0,
                i as int + 1,
            ));
            assert(arg@.subrange(i as int, i as int + 1) =~= seq![arg@[i as int]]);
            assert(out@ =~= base + seq!['"'] + spec_escape(arg@.subrange(0, i as int + 1)));
        }
        i = i + 1;
    }
    out.append("\"");
    proof {
        assert(arg@.subrange(0, len as int) =~= arg@);
        assert(out@ =~= base + (seq!['"'] + spec_escape(arg@) + seq!['"']));
    }
}

/// Serializes one command and its arguments to the wire form: the
/// command, a space before each argument — quoted and escaped when the
/// argument is empty or holds whitespace, quotes or backslashes — and a
/// final newline.
pub fn encode_command(cmd: &str, args: &Vec<String>) -> (r: String)
    ensures
        r@ == spec_encode_command(cmd@, args.deep_view()),
{
    let ghost adv = args.deep_view();
    let mut out = cmd.to_owned();
    let n = args.len();
    let mut i: usize = 0;
    proof {
        assert(adv.subrange(0, 0) =~= Seq::<Seq<char>>::empty());
        assert(out@ =~= cmd@ + spec_encode_args(adv.subrange(0, 0)));
    }
    while i < n
        invariant
            0 <= i <= n,
            n == args@.len(),
            adv == args.deep_view(),
            out@ == cmd@ + spec_encode_args(adv.subrange(0, i as int)),
        decreases n - i,
    {
        proof {
            reveal_strlit(" ");
            assert(adv[i as int] == args@[i as int]@);
        }
        out.append(" ");
        quote_arg_into(&mut out, args[i].as_str());
        proof {
            lemma_encode_args_snoc(adv.subrange(0, i as int), adv[i as int]);
            assert(adv.subrange(0, i as int).push(adv[i as int]) =~= adv.subrange(
                0,
                i as int + 1,
            ));
            assert(out@ =~= cmd@ + spec_encode_args(adv.subrange(0, i as int + 1)));
        }
        i = i + 1;
    }
    out.append("\n");
    proof {
        reveal_strlit("\n");
        assert(adv.subrange(0, n as int) =~= adv);
        assert(out@ =~= cmd@ + spec_encode_args(adv) + seq!['\n']);
    }
    out
}

/// A serialized command line always ends in exactly one newline, and
/// begins with the command itself: the framing the peer relies on.
pub proof fn lemma_encoded_command_framing(cmd: Seq<char>, args: Seq<Seq<char>>)
    ensures
        spec_encode_command(cmd, args).len() > cmd.len(),
        spec_encode_command(cmd, args).last() == '\n',
        has_prefix(spec_encode_command(cmd, args), cmd),
{
    let enc = spec_encode_command(cmd, args);
    assert(enc.len() == cmd.len() + spec_encode_args(args).len() + 1);
    assert(enc.subrange(0, cmd.len() as int) =~= cmd);
}

} // verus!
