//! What crosses the boundary to VBA: a number and a value.
use crate::api::{DACK_E_FORBIDDEN, DACK_E_GENERAL, DACK_E_PANIC, DACK_OK};
use crate::oleaut;
use crate::oleaut::VARIANT;
use crate::text;
use crate::variant;
use crate::variant::Answer;
use vstd::prelude::*;

verus! {

/// How a call ended.
#[derive(Debug)]
pub enum Ending {
    Returned(Result<VARIANT, String>),
    /// It panicked, with this message where the panic carried a text.
    Panicked(Option<String>),
}

/// What marks the message of a function that the level does not have.
pub const FORBIDDEN_MARK: &'static str = "この DLL では使えません";

/// The message about a panic.
pub open spec fn panic_text(detail: Seq<char>) -> Seq<char> {
    "dackdb の内部エラー（panic）: "@ + detail
        + "\nこれは DLL の不具合です。実行した SQL と合わせて報告してください。"@
}

/// The number that VBA gets.
pub open spec fn code_of(ending: Ending) -> i32 {
    match ending {
        Ending::Returned(Ok(_)) => DACK_OK,
        Ending::Returned(Err(m)) => if text::has_text(m@, FORBIDDEN_MARK@) {
            DACK_E_FORBIDDEN
        } else {
            DACK_E_GENERAL
        },
        Ending::Panicked(_) => DACK_E_PANIC,
    }
}

/// The value that VBA gets: the result, or the message.
pub open spec fn answer_to(ending: Ending) -> Answer {
    match ending {
        Ending::Returned(Ok(v)) => variant::answer_of(v),
        Ending::Returned(Err(m)) => Answer::Value(oleaut::shown_text(m@)),
        Ending::Panicked(Some(detail)) => Answer::Value(oleaut::shown_text(panic_text(detail@))),
        Ending::Panicked(None) => Answer::Value(oleaut::shown_text(panic_text("詳細不明"@))),
    }
}

/// Turns the end of a call into a number for VBA and a value for its result. There
/// is a value in every case, so VBA handles them all alike.
pub fn guard(ending: Ending) -> (r: (i32, VARIANT))
    ensures
        r.0 == code_of(ending),
        variant::answer_of(r.1) == answer_to(ending),
{
    match ending {
        Ending::Returned(Ok(v)) => (DACK_OK, v),
        Ending::Returned(Err(m)) => {
            let forbidden = text::contains(m.as_str(), FORBIDDEN_MARK);
            let v = VARIANT::bstr(m.as_str());
            if forbidden {
                (DACK_E_FORBIDDEN, v)
            } else {
                (DACK_E_GENERAL, v)
            }
        },
        Ending::Panicked(detail) => {
            let mut m = "dackdb の内部エラー（panic）: ".to_owned();
            match detail {
                Some(d) => m.append(d.as_str()),
                None => m.append("詳細不明"),
            }
            m.append("\nこれは DLL の不具合です。実行した SQL と合わせて報告してください。");
            (DACK_E_PANIC, VARIANT::bstr(m.as_str()))
        },
    }
}

/// The number that VBA gets: 0 for a result, -999 for a panic, -403 for a message with
/// the words about a function that the DLL does not have in it, wherever they stand,
/// and -1 for any other.
pub proof fn law_numbers_for_vba(ending: Ending, before: Seq<char>, after: Seq<char>)
    ensures
        ending is Returned && ending->Returned_0 is Ok ==> code_of(ending) == 0,
        ending is Panicked ==> code_of(ending) == -999,
        ending is Returned && ending->Returned_0 is Err ==> code_of(ending) == -403 || code_of(
            ending,
        ) == -1,
        ending matches Ending::Returned(Err(m)) ==> m@ == before + "この DLL では使えません"@ + after
            ==> code_of(ending) == -403,
        ending matches Ending::Returned(Err(m)) ==> code_of(ending) == -403 ==> exists|i: int|
            #![trigger m@.skip(i)]
            0 <= i && "この DLL では使えません"@.is_prefix_of(m@.skip(i)),
{
    let mark = "この DLL では使えません"@;
    if let Ending::Returned(Err(m)) = ending {
        let at = before.len() as int;
        if m@ == before + mark + after {
            assert(m@.subrange(at, at + mark.len()) == mark);
        }
        if text::has_text(m@, mark) {
            let i = choose|i: int|
                0 <= i <= m@.len() - mark.len() && #[trigger] m@.subrange(i, i + mark.len()) == mark;
            assert(m@.skip(i).subrange(0, mark.len() as int) == m@.subrange(i, i + mark.len()));
            assert(mark.is_prefix_of(m@.skip(i)));
        }
    }
}

/// There is a value in every case: a result is handed on as it is, and a message is a
/// text, which for a panic holds what the panic said.
pub proof fn law_values_for_vba(ending: Ending)
    ensures
        ending matches Ending::Returned(Ok(v)) ==> answer_to(ending) == variant::answer_of(v),
        ending matches Ending::Returned(Err(m)) ==> answer_to(ending) == Answer::Value(
            oleaut::shown_text(m@),
        ),
        ending matches Ending::Panicked(Some(m)) ==> (answer_to(ending) matches Answer::Value(v)
            && exists|t: Seq<char>| v == #[trigger] oleaut::shown_text(t) && text::has_text(t, m@)),
        ending matches Ending::Panicked(None) ==> (answer_to(ending) matches Answer::Value(v)
            && exists|t: Seq<char>|
            v == #[trigger] oleaut::shown_text(t) && text::has_text(t, "詳細不明"@)),
{
    if let Ending::Panicked(detail) = ending {
        let said = match detail {
            Some(m) => m@,
            None => "詳細不明"@,
        };
        let t = panic_text(said);
        let at = "dackdb の内部エラー（panic）: "@.len() as int;
        assert(t.subrange(at, at + said.len()) == said);
        assert(text::has_text(t, said));
        assert(answer_to(ending) == Answer::Value(oleaut::shown_text(t)));
    }
}

/// The message for a text argument that is a null pointer.
pub open spec fn argument_missing(name: Seq<char>) -> Seq<char> {
    "引数 "@ + name + " が空（null）です。StrPtr() で渡してください。"@
}

/// A text argument, given the code units at its pointer. The null pointer is an
/// error.
pub fn arg_string(p: Option<&[u16]>, name: &str) -> (r: Result<String, String>)
    ensures
        match p {
            Some(units) => r matches Ok(s) && s@ == text::utf16_text(
                units@.take(oleaut::wide_length(units@, 0)),
            ),
            None => r matches Err(m) && m@ == argument_missing(name@),
        },
{
    match oleaut::wide_ptr_to_string(p) {
        Some(s) => Ok(s),
        None => {
            let mut m = "引数 ".to_owned();
            m.append(name);
            m.append(" が空（null）です。StrPtr() で渡してください。");
            Err(m)
        },
    }
}

} // verus!
