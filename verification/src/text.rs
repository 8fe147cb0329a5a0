//! The lines that a task prints.
use vstd::prelude::*;

use crate::messaging::{CallError, TaskId};
use crate::task::CallResult;

verus! {

/// The decimal digit of `d`.
pub open spec fn digit(d: nat) -> Seq<char> {
    if d == 0 {
        "0"@
    } else if d == 1 {
        "1"@
    } else if d == 2 {
        "2"@
    } else if d == 3 {
        "3"@
    } else if d == 4 {
        "4"@
    } else if d == 5 {
        "5"@
    } else if d == 6 {
        "6"@
    } else if d == 7 {
        "7"@
    } else if d == 8 {
        "8"@
    } else {
        "9"@
    }
}

/// `n` in decimal, without leading zeros.
pub open spec fn decimal(n: nat) -> Seq<char>
    decreases n,
{
    if n < 10 {
        digit(n)
    } else {
        decimal(n / 10) + digit(n % 10)
    }
}

/// `bytes` in decimal, with a comma and a space between two of them.
pub open spec fn comma_separated(bytes: Seq<u8>) -> Seq<char>
    decreases bytes.len(),
{
    if bytes.len() == 0 {
        Seq::empty()
    } else if bytes.len() == 1 {
        decimal(bytes[0] as nat)
    } else {
        comma_separated(bytes.drop_last()) + ", "@ + decimal(bytes.last() as nat)
    }
}

/// How a task ID is printed.
pub open spec fn task_id_text(task_id: TaskId) -> Seq<char> {
    "["@ + comma_separated(task_id@) + "]"@
}

/// How the answer to a call is printed.
pub open spec fn call_result_text(result: CallResult) -> Seq<char> {
    match result {
        CallResult::DoSomethingR(r) => "DoSomethingR("@ + decimal(r as nat) + ")"@,
    }
}

/// How a failed call is printed.
pub open spec fn call_error_text(error: CallError) -> Seq<char> {
    match error {
        CallError::ResultDecoding => "ResultDecoding"@,
    }
}

/// What a task prints about its call of `task_id`.
pub open spec fn report_text(task_id: TaskId, result: Result<CallResult, CallError>) -> Seq<char> {
    match result {
        Ok(result) => "Task "@ + task_id_text(task_id) + " returned: "@ + call_result_text(result),
        Err(error) => "Calling task "@ + task_id_text(task_id) + " returned an error: "@
            + call_error_text(error),
    }
}

/// What a task prints about its progress.
pub open spec fn counter_text(counter: u64) -> Seq<char> {
    "Counter "@ + decimal(counter as nat)
}

/// Appends the decimal digit of `d`.
fn push_digit(text: &mut String, d: u64)
    requires
        d < 10,
    ensures
        final(text)@ == old(text)@ + digit(d as nat),
{
    if d == 0 {
        text.append("0");
    } else if d == 1 {
        text.append("1");
    } else if d == 2 {
        text.append("2");
    } else if d == 3 {
        text.append("3");
    } else if d == 4 {
        text.append("4");
    } else if d == 5 {
        text.append("5");
    } else if d == 6 {
        text.append("6");
    } else if d == 7 {
        text.append("7");
    } else if d == 8 {
        text.append("8");
    } else {
        text.append("9");
    }
}

/// Appends `n` in decimal.
pub fn push_decimal(text: &mut String, n: u64)
    ensures
        final(text)@ == old(text)@ + decimal(n as nat),
    decreases n,
{
    if n < 10 {
        push_digit(text, n);
    } else {
        push_decimal(text, n / 10);
        push_digit(text, n % 10);
        assert(text@ =~= old(text)@ + decimal(n as nat));
    }
}

/// Appends a task ID.
fn push_task_id(text: &mut String, task_id: &TaskId)
    ensures
        final(text)@ == old(text)@ + task_id_text(*task_id),
{
    text.append("[");
    let mut i: usize = 0;
    assert(task_id@.take(0) =~= Seq::empty());
    assert(text@ =~= old(text)@ + "["@ + comma_separated(task_id@.take(0)));
    while i < 32
        invariant
            i <= 32,
            text@ == old(text)@ + "["@ + comma_separated(task_id@.take(i as int)),
        decreases 32 - i,
    {
        proof {
            let next = task_id@.take(i + 1);
            assert(next.drop_last() =~= task_id@.take(i as int));
            assert(next.last() == task_id@[i as int]);
            assert(i == 0 ==> next[0] == task_id@[0]);
        }
        if i > 0 {
            text.append(", ");
        }
        push_decimal(text, task_id[i] as u64);
        assert(text@ =~= old(text)@ + "["@ + comma_separated(task_id@.take(i + 1)));
        i += 1;
    }
    assert(task_id@.take(32) =~= task_id@);
    text.append("]");
    assert(text@ =~= old(text)@ + task_id_text(*task_id));
}

/// The line that a task prints about its call of `task_id`.
pub fn report(task_id: &TaskId, result: &Result<CallResult, CallError>) -> (line: String)
    ensures
        line@ == report_text(*task_id, *result),
{
    let mut line = String::new();
    match result {
        Ok(CallResult::DoSomethingR(r)) => {
            line.append("Task ");
            push_task_id(&mut line, task_id);
            line.append(" returned: ");
            line.append("DoSomethingR(");
            push_decimal(&mut line, *r as u64);
            line.append(")");
        },
        Err(CallError::ResultDecoding) => {
            line.append("Calling task ");
            push_task_id(&mut line, task_id);
            line.append(" returned an error: ");
            line.append("ResultDecoding");
        },
    }
    assert(line@ =~= report_text(*task_id, *result));
    line
}

/// The line that a task prints about its progress.
pub fn counter_line(counter: u64) -> (line: String)
    ensures
        line@ == counter_text(counter),
{
    let mut line = String::new();
    line.append("Counter ");
    push_decimal(&mut line, counter);
    assert(line@ =~= counter_text(counter));
    line
}

/// A number below ten is printed as one digit, and the digits follow each other from `0` on.
pub proof fn law_digit_is_printed(d: nat)
    requires
        d < 10,
    ensures
        decimal(d) == seq![('0' as nat + d) as char],
{
    reveal_strlit("0");
    reveal_strlit("1");
    reveal_strlit("2");
    reveal_strlit("3");
    reveal_strlit("4");
    reveal_strlit("5");
    reveal_strlit("6");
    reveal_strlit("7");
    reveal_strlit("8");
    reveal_strlit("9");
    assert(decimal(d) =~= seq![('0' as nat + d) as char]);
}

/// A larger number is printed as the number without its last digit, and then that digit: so the
/// text of a number names the number, and has no leading zeros.
pub proof fn law_decimal_is_positional(n: nat, d: nat)
    requires
        n > 0,
        d < 10,
    ensures
        decimal(10 * n + d) == decimal(n) + seq![('0' as nat + d) as char],
{
    law_digit_is_printed(d);
    assert((10 * n + d) / 10 == n && (10 * n + d) % 10 == d);
}

/// Bytes are printed one by one, and what is printed before and after a comma are the bytes before
/// and after it.
pub proof fn law_bytes_are_separated(byte: u8, a: Seq<u8>, b: Seq<u8>)
    ensures
        comma_separated(Seq::empty()) == Seq::<char>::empty(),
        comma_separated(seq![byte]) == decimal(byte as nat),
        a.len() > 0 && b.len() > 0 ==> comma_separated(a + b) == comma_separated(a) + seq![',', ' ']
            + comma_separated(b),
    decreases b.len(),
{
    reveal_strlit(", ");
    assert(", "@ =~= seq![',', ' ']);
    if a.len() > 0 && b.len() > 0 {
        let both = a + b;
        assert(both.last() == b.last());
        if b.len() == 1 {
            assert(both.drop_last() =~= a);
            assert(b[0] == b.last());
        } else {
            assert(both.drop_last() =~= a + b.drop_last());
            law_bytes_are_separated(byte, a, b.drop_last());
        }
        assert(comma_separated(both) =~= comma_separated(a) + seq![',', ' '] + comma_separated(b));
    }
}

/// The lines that a task prints, word by word: the ID of the called task stands in brackets, and
/// the number that came back is printed as it is.
pub proof fn law_lines_read(task_id: TaskId, r: u32, counter: u64)
    ensures
        report_text(task_id, Ok(CallResult::DoSomethingR(r))) == "Task ["@ + comma_separated(
            task_id@,
        ) + "] returned: DoSomethingR("@ + decimal(r as nat) + ")"@,
        report_text(task_id, Err(CallError::ResultDecoding)) == "Calling task ["@ + comma_separated(
            task_id@,
        ) + "] returned an error: ResultDecoding"@,
        counter_text(counter) == "Counter "@ + decimal(counter as nat),
{
    reveal_strlit("[");
    reveal_strlit("]");
    reveal_strlit("Task ");
    reveal_strlit("Task [");
    reveal_strlit(" returned: ");
    reveal_strlit("DoSomethingR(");
    reveal_strlit("] returned: DoSomethingR(");
    reveal_strlit("Calling task ");
    reveal_strlit("Calling task [");
    reveal_strlit(" returned an error: ");
    reveal_strlit("ResultDecoding");
    reveal_strlit("] returned an error: ResultDecoding");
    assert("Task ["@ =~= "Task "@ + "["@);
    assert("] returned: DoSomethingR("@ =~= "]"@ + " returned: "@ + "DoSomethingR("@);
    assert("Calling task ["@ =~= "Calling task "@ + "["@);
    assert("] returned an error: ResultDecoding"@ =~= "]"@ + " returned an error: "@
        + "ResultDecoding"@);
    assert(report_text(task_id, Ok(CallResult::DoSomethingR(r))) =~= "Task ["@ + comma_separated(
        task_id@,
    ) + "] returned: DoSomethingR("@ + decimal(r as nat) + ")"@);
    assert(report_text(task_id, Err(CallError::ResultDecoding)) =~= "Calling task ["@
        + comma_separated(task_id@) + "] returned an error: ResultDecoding"@);
}

} // verus!
