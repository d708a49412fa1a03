use vstd::prelude::*;

use crate::message::{
    lemma_message_literal_decodes, lemma_message_literal_starts_with_marker, literal_value, marker,
    message_for, message_literal, message_text,
};
use crate::text::{has_prefix_at, same_text};

verus! {

/// The callee of a call, as far as matching goes, with its printed text
/// (trivia included).
pub enum Callee {
    /// A bare identifier reference.
    Identifier { name: String, text: String },
    /// Anything else: a parenthesised expression, and so on.
    Other { text: String },
}

/// What the classifier reads of an argument expression.
pub enum Shape {
    /// A string literal; `token` is the literal with its delimiters, without trivia.
    StringLiteral { token: String },
    /// An interpolated string; `token` is its printed form without trivia.
    InterpolatedString { token: String },
    /// Any other expression.
    Other,
}

/// One argument: the expression as printed (trivia included), its shape, and
/// the comma that follows it as printed, or nothing for the last one.
pub struct Argument {
    pub text: String,
    pub shape: Shape,
    pub separator: String,
}

/// What follows the callee first.
pub enum Arguments {
    /// A parenthesised argument list: the opening parenthesis, the arguments
    /// and the closing parenthesis, each as printed.
    Parenthesized { open: String, list: Vec<Argument>, close: String },
    /// Any other suffix (a table or string call, an index, a method call), as printed.
    Other { text: String },
}

/// A function call node: callee, first suffix, and the remaining suffixes as printed.
pub struct CallSite {
    pub callee: Callee,
    pub arguments: Arguments,
    pub rest: String,
}

pub enum CalleeModel {
    Identifier { name: Seq<char>, text: Seq<char> },
    Other { text: Seq<char> },
}

pub enum ShapeModel {
    StringLiteral { token: Seq<char> },
    InterpolatedString { token: Seq<char> },
    Other,
}

pub struct ArgumentModel {
    pub text: Seq<char>,
    pub shape: ShapeModel,
    pub separator: Seq<char>,
}

pub enum ArgumentsModel {
    Parenthesized { open: Seq<char>, list: Seq<ArgumentModel>, close: Seq<char> },
    Other { text: Seq<char> },
}

pub struct CallModel {
    pub callee: CalleeModel,
    pub arguments: ArgumentsModel,
    pub rest: Seq<char>,
}

impl View for Callee {
    type V = CalleeModel;

    open spec fn view(&self) -> CalleeModel {
        match self {
            Callee::Identifier { name, text } => CalleeModel::Identifier { name: name@, text: text@ },
            Callee::Other { text } => CalleeModel::Other { text: text@ },
        }
    }
}

impl View for Shape {
    type V = ShapeModel;

    open spec fn view(&self) -> ShapeModel {
        match self {
            Shape::StringLiteral { token } => ShapeModel::StringLiteral { token: token@ },
            Shape::InterpolatedString { token } => ShapeModel::InterpolatedString { token: token@ },
            Shape::Other => ShapeModel::Other,
        }
    }
}

impl View for Argument {
    type V = ArgumentModel;

    open spec fn view(&self) -> ArgumentModel {
        ArgumentModel { text: self.text@, shape: self.shape@, separator: self.separator@ }
    }
}

impl View for Arguments {
    type V = ArgumentsModel;

    open spec fn view(&self) -> ArgumentsModel {
        match self {
            Arguments::Parenthesized { open, list, close } => ArgumentsModel::Parenthesized {
                open: open@,
                list: list@.map_values(|a: Argument| a@),
                close: close@,
            },
            Arguments::Other { text } => ArgumentsModel::Other { text: text@ },
        }
    }
}

impl View for CallSite {
    type V = CallModel;

    open spec fn view(&self) -> CallModel {
        CallModel { callee: self.callee@, arguments: self.arguments@, rest: self.rest@ }
    }
}

/// What the rewrite does with a call.
#[derive(PartialEq, Eq, Structural, Clone, Copy, Debug)]
pub enum Action {
    /// Not a call of `assert` with a parenthesised argument list.
    Unmatched,
    /// `assert()` with no condition: left as it is, and reported.
    Malformed,
    /// No message yet: one is added as a second argument.
    Append,
    /// An empty or previously generated message: it is written anew.
    Replace,
    /// A message the author wrote, or a second argument that is no string.
    Preserve,
}

pub open spec fn assert_name() -> Seq<char> {
    seq!['a', 's', 's', 'e', 'r', 't']
}

/// The callee is the bare identifier `assert`.
pub open spec fn calls_assert(callee: CalleeModel) -> bool {
    match callee {
        CalleeModel::Identifier { name, .. } => name == assert_name(),
        CalleeModel::Other { .. } => false,
    }
}

/// A second argument that may be overwritten: an empty string literal, a
/// literal whose content opens with the tag, or an empty interpolated string.
pub open spec fn is_stale_message(shape: ShapeModel) -> bool {
    match shape {
        ShapeModel::StringLiteral { token } => token == seq!['\'', '\''] || token == seq!['"', '"']
            || (token.len() >= 1 && marker().is_prefix_of(token.skip(1))),
        ShapeModel::InterpolatedString { token } => token == seq!['`', '`'],
        ShapeModel::Other => false,
    }
}

/// The action the rewrite takes on a call.
pub open spec fn action_of(c: CallModel) -> Action {
    if !calls_assert(c.callee) {
        Action::Unmatched
    } else {
        match c.arguments {
            ArgumentsModel::Parenthesized { list, .. } => {
                if list.len() == 0 {
                    Action::Malformed
                } else if list.len() == 1 {
                    Action::Append
                } else if is_stale_message(list[1].shape) {
                    Action::Replace
                } else {
                    Action::Preserve
                }
            },
            ArgumentsModel::Other { .. } => Action::Unmatched,
        }
    }
}

/// The generated message argument for a call whose first argument is `first`.
pub open spec fn message_argument(first: ArgumentModel, separator: Seq<char>) -> ArgumentModel {
    ArgumentModel {
        text: message_literal(first.text),
        shape: ShapeModel::StringLiteral { token: message_literal(first.text) },
        separator,
    }
}

/// The list after the rewrite: with `Append`, the first argument gains a
/// comma and a space and the message follows it; with `Replace`, the second
/// argument becomes the message and keeps its own comma; otherwise the list
/// is kept.
pub open spec fn rewritten_list(action: Action, list: Seq<ArgumentModel>) -> Seq<ArgumentModel> {
    if action == Action::Append {
        seq![
            ArgumentModel { text: list[0].text, shape: list[0].shape, separator: seq![',', ' '] },
            message_argument(list[0], Seq::empty()),
        ]
    } else if action == Action::Replace {
        list.update(1, message_argument(list[0], list[1].separator))
    } else {
        list
    }
}

/// The call after the rewrite: only the argument list of a matched call changes.
pub open spec fn rewritten(c: CallModel) -> CallModel {
    match c.arguments {
        ArgumentsModel::Parenthesized { open, list, close } => CallModel {
            callee: c.callee,
            arguments: ArgumentsModel::Parenthesized {
                open,
                list: rewritten_list(action_of(c), list),
                close,
            },
            rest: c.rest,
        },
        ArgumentsModel::Other { .. } => c,
    }
}

pub open spec fn callee_text(callee: CalleeModel) -> Seq<char> {
    match callee {
        CalleeModel::Identifier { text, .. } => text,
        CalleeModel::Other { text } => text,
    }
}

/// The arguments' source text, each followed by its comma.
pub open spec fn printed_list(list: Seq<ArgumentModel>) -> Seq<char>
    decreases list.len(),
{
    if list.len() == 0 {
        Seq::empty()
    } else {
        printed_list(list.drop_last()) + list.last().text + list.last().separator
    }
}

pub open spec fn printed_arguments(a: ArgumentsModel) -> Seq<char> {
    match a {
        ArgumentsModel::Parenthesized { open, list, close } => open + printed_list(list) + close,
        ArgumentsModel::Other { text } => text,
    }
}

/// The source text of a call.
pub open spec fn printed(c: CallModel) -> Seq<char> {
    callee_text(c.callee) + printed_arguments(c.arguments) + c.rest
}

/// Whether the callee is the bare identifier `assert`.
pub fn is_assert_callee(callee: &Callee) -> (r: bool)
    ensures
        r == calls_assert(callee@),
{
    proof {
        reveal_strlit("assert");
        assert("assert"@ =~= assert_name());
    }
    match callee {
        Callee::Identifier { name, .. } => same_text(name.as_str(), "assert"),
        Callee::Other { .. } => false,
    }
}

/// Whether a second argument of this shape may be overwritten.
pub fn is_stale(shape: &Shape) -> (r: bool)
    ensures
        r == is_stale_message(shape@),
{
    proof {
        reveal_strlit("''");
        reveal_strlit("\"\"");
        reveal_strlit("[blam]");
        reveal_strlit("``");
        assert("[blam]"@ =~= marker());
        assert("''"@ =~= seq!['\'', '\'']);
        assert("\"\""@ =~= seq!['"', '"']);
        assert("``"@ =~= seq!['`', '`']);
    }
    match shape {
        Shape::StringLiteral { token } => {
            let t = token.as_str();
            same_text(t, "''") || same_text(t, "\"\"") || (t.unicode_len() >= 1 && has_prefix_at(
                t,
                1,
                "[blam]",
            ))
        },
        Shape::InterpolatedString { token } => same_text(token.as_str(), "``"),
        Shape::Other => false,
    }
}

/// Chooses what the rewrite does with `call`.
pub fn classify(call: &CallSite) -> (r: Action)
    ensures
        r == action_of(call@),
{
    if !is_assert_callee(&call.callee) {
        return Action::Unmatched;
    }
    match &call.arguments {
        Arguments::Parenthesized { list, .. } => {
            if list.len() == 0 {
                Action::Malformed
            } else if list.len() == 1 {
                Action::Append
            } else if is_stale(&list[1].shape) {
                Action::Replace
            } else {
                Action::Preserve
            }
        },
        Arguments::Other { .. } => Action::Unmatched,
    }
}

/// The message argument for a call whose first argument reads `first`.
fn message_argument_for(first: &Argument, separator: String) -> (r: Argument)
    ensures
        r@ == message_argument(first@, separator@),
{
    let literal = message_for(first.text.as_str());
    Argument { text: literal.clone(), shape: Shape::StringLiteral { token: literal }, separator }
}

/// Rewrites one call: returns the new call and the action that was taken.
/// A malformed `assert()` comes back as it was, with `Action::Malformed`, for
/// the caller to report.
pub fn rewrite(call: CallSite) -> (r: (CallSite, Action))
    ensures
        r.0@ == rewritten(call@),
        r.1 == action_of(call@),
{
    let action = classify(&call);
    let ghost model = call@;
    let CallSite { callee, arguments, rest } = call;
    match arguments {
        Arguments::Parenthesized { open, list, close } => {
            let ghost old_list = list@.map_values(|a: Argument| a@);
            let mut list = list;
            if action == Action::Append {
                let first = list.remove(0);
                let message = message_argument_for(&first, String::new());
                let mut comma = String::new();
                comma.append(", ");
                let kept = Argument { text: first.text, shape: first.shape, separator: comma };
                let mut new_list: Vec<Argument> = Vec::new();
                new_list.push(kept);
                new_list.push(message);
                proof {
                    reveal_strlit(", ");
                    assert(first@ == old_list[0]);
                    assert(comma@ =~= seq![',', ' ']);
                    assert(message@ == message_argument(old_list[0], Seq::empty()));
                    assert(new_list@.map_values(|a: Argument| a@) =~= rewritten_list(
                        action,
                        old_list,
                    ));
                }
                let arguments = Arguments::Parenthesized { open, list: new_list, close };
                (CallSite { callee, arguments, rest }, action)
            } else if action == Action::Replace {
                let old_second = list.remove(1);
                let message = message_argument_for(&list[0], old_second.separator);
                list.insert(1, message);
                proof {
                    assert(list@.map_values(|a: Argument| a@) =~= rewritten_list(action, old_list));
                }
                let arguments = Arguments::Parenthesized { open, list, close };
                (CallSite { callee, arguments, rest }, action)
            } else {
                let arguments = Arguments::Parenthesized { open, list, close };
                (CallSite { callee, arguments, rest }, action)
            }
        },
        Arguments::Other { text } => {
            (CallSite { callee, arguments: Arguments::Other { text }, rest }, action)
        },
    }
}

proof fn lemma_printed_list_step(list: Seq<ArgumentModel>, i: int)
    requires
        0 <= i < list.len(),
    ensures
        printed_list(list.subrange(0, i + 1)) == printed_list(list.subrange(0, i)) + list[i].text
            + list[i].separator,
{
    assert(list.subrange(0, i + 1).drop_last() =~= list.subrange(0, i));
}

/// The source text of `call`.
pub fn print(call: &CallSite) -> (r: String)
    ensures
        r@ == printed(call@),
{
    let mut out = String::new();
    match &call.callee {
        Callee::Identifier { text, .. } => out.append(text.as_str()),
        Callee::Other { text } => out.append(text.as_str()),
    }
    match &call.arguments {
        Arguments::Parenthesized { open, list, close } => {
            let ghost models = list@.map_values(|a: Argument| a@);
            let ghost head = out@ + open@;
            out.append(open.as_str());
            let mut i: usize = 0;
            proof {
                assert(models.subrange(0, 0) =~= Seq::<ArgumentModel>::empty());
            }
            while i < list.len()
                invariant
                    models == list@.map_values(|a: Argument| a@),
                    i <= list.len(),
                    out@ == head + printed_list(models.subrange(0, i as int)),
                decreases list.len() - i,
            {
                proof {
                    lemma_printed_list_step(models, i as int);
                }
                out.append(list[i].text.as_str());
                out.append(list[i].separator.as_str());
                i = i + 1;
            }
            proof {
                assert(models.subrange(0, list.len() as int) =~= models);
            }
            out.append(close.as_str());
        },
        Arguments::Other { text } => out.append(text.as_str()),
    }
    out.append(call.rest.as_str());
    proof {
        assert(out@ =~= printed(call@));
    }
    out
}

/// The message this library writes is itself taken for a stale one.
proof fn lemma_message_is_stale(first: ArgumentModel, separator: Seq<char>)
    ensures
        is_stale_message(message_argument(first, separator).shape),
{
    lemma_message_literal_starts_with_marker(first.text);
}

/// Rewriting a call a second time changes nothing more: the message written
/// the first time is recognised by its tag and written again the same.
pub proof fn lemma_rewrite_idempotent(c: CallModel)
    ensures
        rewritten(rewritten(c)) == rewritten(c),
        printed(rewritten(rewritten(c))) == printed(rewritten(c)),
{
    let r = rewritten(c);
    if let ArgumentsModel::Parenthesized { open, list, close } = c.arguments {
        let action = action_of(c);
        let new_list = rewritten_list(action, list);
        if action == Action::Append || action == Action::Replace {
            lemma_message_is_stale(list[0], if action == Action::Append {
                Seq::empty()
            } else {
                list[1].separator
            });
            assert(new_list.len() >= 2);
            assert(new_list[0].text == list[0].text);
            assert(action_of(r) == Action::Replace);
            assert(rewritten_list(Action::Replace, new_list) =~= new_list);
        }
    }
}

/// A call that is not rewritten (not matched, malformed, or holding a message
/// that is kept) comes back as it was, and prints the same text.
pub proof fn lemma_untouched_prints_same(c: CallModel)
    requires
        action_of(c) != Action::Append,
        action_of(c) != Action::Replace,
    ensures
        rewritten(c) == c,
        printed(rewritten(c)) == printed(c),
{
}

/// A call whose callee is not the bare identifier `assert` is never changed.
pub proof fn lemma_other_calls_untouched(c: CallModel)
    requires
        !calls_assert(c.callee),
    ensures
        rewritten(c) == c,
        printed(rewritten(c)) == printed(c),
{
}

/// Where a message is written, it is the second argument, the first argument
/// is kept, and the literal reads back as the tag, a newline and the first
/// argument's source.
pub proof fn lemma_written_message_decodes(c: CallModel)
    requires
        action_of(c) == Action::Append || action_of(c) == Action::Replace,
    ensures
        rewritten(c).arguments is Parenthesized,
        c.arguments is Parenthesized,
        ({
            let old_list = c.arguments->Parenthesized_list;
            let new_list = rewritten(c).arguments->Parenthesized_list;
            &&& new_list.len() >= 2
            &&& new_list.len() == if old_list.len() == 1 { 2 } else { old_list.len() }
            &&& new_list[0].text == old_list[0].text
            &&& literal_value(new_list[1].text) == message_text(old_list[0].text)
            &&& forall|i: int| 2 <= i < old_list.len() ==> new_list[i] == old_list[i]
        }),
{
    let old_list = c.arguments->Parenthesized_list;
    lemma_message_literal_decodes(old_list[0].text);
}

} // verus!
