//! What a whole write sends to the console.
use vstd::prelude::*;

use crate::status::{errors_have_the_high_bit, is_error, EfiResult, Status, MAX_BIT};
use crate::system::Address;
use crate::text::{
    chunk_len, encoded, filled, ucs2, units_are_code_points, units_of_a_text_are_its_code_points,
    write_of, WriteStep, Writer, Writing, BUFFER_LEN, CHUNK_LEN,
};

verus! {

/// A write from beginning to end.
pub ghost struct Run {
    /// The buffer that each `OutputString` call was given.
    pub calls: Seq<Seq<u16>>,
    /// The result of the write.
    pub result: EfiResult<()>,
}

/// Steps a write until it is done. `replies(k)` is the status code of the next
/// call, `replies(k + 1)` that of the call after it, and so on.
pub open spec fn run_from(
    state: Writing,
    reply: Option<Status>,
    replies: spec_fn(nat) -> Status,
    k: nat,
) -> Run
    decreases state.pending.len(),
{
    let (next, step) = state.step(reply);
    match step {
        WriteStep::Output => {
            let rest = run_from(next, Some(replies(k)), replies, k + 1);
            Run { calls: seq![next.buffer] + rest.calls, result: rest.result }
        },
        WriteStep::Done(result) => Run { calls: Seq::empty(), result },
    }
}

/// The whole write that starts in the given state, where `replies(i)` is the
/// status code of the `i`-th call.
pub open spec fn run(state: Writing, replies: spec_fn(nat) -> Status) -> Run {
    run_from(state, None, replies, 0)
}

/// How many calls a text takes when none of them fails.
pub open spec fn calls_needed(text: Seq<char>) -> nat {
    ((text.len() + CHUNK_LEN - 1) / (CHUNK_LEN as int)) as nat
}

/// How many characters the first `n` calls send.
pub open spec fn sent(text: Seq<char>, n: nat) -> int {
    if n * CHUNK_LEN <= text.len() {
        n * CHUNK_LEN
    } else {
        text.len() as int
    }
}

/// The characters that the `i`-th call sends.
pub open spec fn chunk(text: Seq<char>, i: nat) -> Seq<char> {
    text.subrange(sent(text, i), sent(text, i + 1))
}

/// What the firmware displays of a buffer: the units in front of the first zero.
pub open spec fn shown(buffer: Seq<u16>) -> Seq<u16>
    decreases buffer.len(),
{
    if buffer.len() == 0 || buffer[0] == 0 {
        Seq::empty()
    } else {
        seq![buffer[0]] + shown(buffer.skip(1))
    }
}

/// Whether no character of a text has the unit zero.
pub open spec fn displayable(text: Seq<char>) -> bool {
    forall|i: int| 0 <= i < text.len() ==> ucs2(#[trigger] text[i]) != 0
}

/// What the console displays after a series of calls.
pub open spec fn console(calls: Seq<Seq<u16>>) -> Seq<u16>
    decreases calls.len(),
{
    if calls.len() == 0 {
        Seq::empty()
    } else {
        shown(calls[0]) + console(calls.skip(1))
    }
}

proof fn lemma_fmt_result(result: EfiResult<()>, pieces: Seq<EfiResult<()>>)
    ensures
        fmt_result(result, pieces) == (if pieces.len() == 0 {
            result
        } else {
            pieces.last()
        }),
    decreases pieces.len(),
{
    if pieces.len() > 0 {
        lemma_fmt_result(pieces[0], pieces.skip(1));
    }
}

proof fn lemma_result(
    state: Writing,
    reply: Option<Status>,
    replies: spec_fn(nat) -> Status,
    k: nat,
    j: nat,
)
    requires
        reply is Some ==> !is_error(reply->0),
        j <= calls_needed(state.pending),
        forall|h: nat| h < j ==> !#[trigger] is_error(replies(k + h)),
        j < calls_needed(state.pending) ==> is_error(replies(k + j)),
    ensures
        ({
            let write = run_from(state, reply, replies, k);
            if j < calls_needed(state.pending) {
                write.result == Err::<(), Status>(replies(k + j)) && write.calls.len() == j + 1
            } else {
                write.result == Ok::<(), Status>(()) && write.calls.len() == j
            }
        }),
    decreases state.pending.len(),
{
    if state.pending.len() > 0 {
        let (next, step) = state.step(reply);
        assert(calls_needed(next.pending) == calls_needed(state.pending) - 1);
        if j == 0 {
            assert(k + j == k);
            assert(run_from(next, Some(replies(k)), replies, k + 1).calls =~= Seq::empty());
        } else {
            assert(!is_error(replies(k + 0)));
            assert forall|h: nat| h < j - 1 implies !#[trigger] is_error(
                replies(k + 1 + h),
            ) by {
                assert(k + 1 + h == k + (h + 1));
            }
            assert(k + 1 + (j - 1) == k + j);
            lemma_result(next, Some(replies(k)), replies, k + 1, (j - 1) as nat);
        }
    }
}

proof fn lemma_calls(
    state: Writing,
    reply: Option<Status>,
    replies: spec_fn(nat) -> Status,
    k: nat,
    i: nat,
)
    requires
        state.buffer.len() == BUFFER_LEN,
        i < run_from(state, reply, replies, k).calls.len(),
    ensures
        ({
            let call = run_from(state, reply, replies, k).calls[i as int];
            let part = chunk(state.pending, i);
            &&& call.len() == BUFFER_LEN
            &&& 0 < part.len() <= CHUNK_LEN
            &&& call.take(part.len() as int + 1) == encoded(part).push(0)
        }),
    decreases state.pending.len(),
{
    let write = run_from(state, reply, replies, k);
    let (next, step) = state.step(reply);
    let part = state.pending.take(chunk_len(state.pending));
    assert(next.buffer == filled(state.buffer, part));
    let rest = run_from(next, Some(replies(k)), replies, k + 1);
    if i == 0 {
        assert(chunk(state.pending, 0) =~= part);
        assert(write.calls[0] == next.buffer);
        assert(next.buffer.take(part.len() as int + 1) =~= encoded(part).push(0));
    } else {
        let h = (i - 1) as nat;
        assert(write.calls[i as int] == rest.calls[h as int]);
        lemma_calls(next, Some(replies(k)), replies, k + 1, h);
        lemma_chunk_of_rest(state.pending, h);
    }
}

/// Past the first chunk of a text come the chunks of what is left of it.
proof fn lemma_chunk_of_rest(text: Seq<char>, i: nat)
    requires
        text.len() > 0,
    ensures
        chunk(text, i + 1) == chunk(text.skip(chunk_len(text)), i),
{
    let rest = text.skip(chunk_len(text));
    assert(sent(text, i + 1) == chunk_len(text) + sent(rest, i));
    assert(sent(text, i + 2) == chunk_len(text) + sent(rest, i + 1));
    assert(chunk(text, i + 1) =~= chunk(rest, i));
}

/// A zero ends what is displayed, and nothing else does.
proof fn lemma_shown(buffer: Seq<u16>, n: int)
    requires
        0 <= n < buffer.len(),
        buffer[n] == 0,
        forall|i: int| 0 <= i < n ==> buffer[i] != 0,
    ensures
        shown(buffer) == buffer.take(n),
    decreases n,
{
    if n > 0 {
        let rest = buffer.skip(1);
        assert forall|i: int| 0 <= i < n - 1 implies rest[i] != 0 by {
            assert(rest[i] == buffer[i + 1]);
        }
        lemma_shown(rest, n - 1);
        assert(seq![buffer[0]] + rest.take(n - 1) =~= buffer.take(n));
    } else {
        assert(buffer.take(0) =~= Seq::empty());
    }
}

proof fn lemma_console(
    state: Writing,
    reply: Option<Status>,
    replies: spec_fn(nat) -> Status,
    k: nat,
)
    requires
        state.buffer.len() == BUFFER_LEN,
        displayable(state.pending),
    ensures
        ({
            let calls = run_from(state, reply, replies, k).calls;
            console(calls) == encoded(state.pending.take(sent(state.pending, calls.len())))
        }),
    decreases state.pending.len(),
{
    let text = state.pending;
    let calls = run_from(state, reply, replies, k).calls;
    let (next, step) = state.step(reply);
    if step == WriteStep::Output {
        let n = chunk_len(text);
        let part = text.take(n);
        let rest = run_from(next, Some(replies(k)), replies, k + 1).calls;
        assert(calls.skip(1) =~= rest);
        assert(calls[0] == next.buffer);
        assert forall|i: int| 0 <= i < n implies next.buffer[i] != 0 by {
            assert(next.buffer[i] == ucs2(text[i]));
        }
        lemma_shown(next.buffer, n);
        assert(next.buffer.take(n) =~= encoded(part));
        assert forall|i: int| 0 <= i < next.pending.len() implies ucs2(
            #[trigger] next.pending[i],
        ) != 0 by {
            assert(next.pending[i] == text[i + n]);
        }
        lemma_console(next, Some(replies(k)), replies, k + 1);
        assert(sent(text, calls.len()) == n + sent(next.pending, rest.len()));
        assert(encoded(part) + encoded(next.pending.take(sent(next.pending, rest.len())))
            =~= encoded(text.take(sent(text, calls.len()))));
    } else {
        assert(encoded(text.take(0)) =~= Seq::empty());
    }
}

/// The result of a formatted write: that of the piece written last. Each piece
/// replaces the result of the one before it, and without any piece the write
/// has succeeded.
pub open spec fn fmt_result(result: EfiResult<()>, pieces: Seq<EfiResult<()>>) -> EfiResult<()>
    decreases pieces.len(),
{
    if pieces.len() == 0 {
        result
    } else {
        fmt_result(pieces[0], pieces.skip(1))
    }
}

/// A writer that starts with success and is handed the results of the pieces one
/// by one ends up with the result of the formatted write. All pieces go to the
/// same protocol.
pub proof fn writer_keeps_the_result(writers: Seq<Writer<'_>>, pieces: Seq<EfiResult<()>>)
    requires
        writers.len() == pieces.len() + 1,
        writers[0].result() == Ok::<(), Status>(()),
        forall|i: int|
            0 <= i < pieces.len() ==> writers[i].takes(#[trigger] pieces[i], &writers[i + 1]),
    ensures
        writers.last().result() == fmt_result(Ok(()), pieces),
        writers.last().out() == writers[0].out(),
    decreases pieces.len(),
{
    lemma_fmt_result(Ok(()), pieces);
    if pieces.len() > 0 {
        let earlier = pieces.drop_last();
        let before = writers.drop_last();
        assert forall|i: int| 0 <= i < earlier.len() implies before[i].takes(
            #[trigger] earlier[i],
            &before[i + 1],
        ) by {
            assert(earlier[i] == pieces[i]);
        }
        writer_keeps_the_result(before, earlier);
        assert(writers[pieces.len() - 1].takes(pieces[pieces.len() - 1], &writers.last()));
    }
}

/// A formatted write returns the result of the piece that was written last, and
/// succeeds if there was none.
pub proof fn formatted_write_returns_the_last_result(pieces: Seq<EfiResult<()>>)
    ensures
        pieces.len() == 0 ==> fmt_result(Ok(()), pieces) == Ok::<(), Status>(()),
        pieces.len() > 0 ==> fmt_result(Ok(()), pieces) == pieces.last(),
{
    lemma_fmt_result(Ok(()), pieces);
}

/// If the formatting object stops at the first piece that could not be written,
/// the formatted write succeeds exactly when every piece was written, and
/// otherwise returns the error of the piece that was not.
pub proof fn formatted_write_reports_the_failed_piece(pieces: Seq<EfiResult<()>>)
    requires
        forall|i: int| 0 <= i < pieces.len() - 1 ==> #[trigger] pieces[i] is Ok,
    ensures
        fmt_result(Ok(()), pieces) is Ok <==> (forall|i: int|
            0 <= i < pieces.len() ==> #[trigger] pieces[i] is Ok),
        forall|i: int|
            0 <= i < pieces.len() && #[trigger] pieces[i] is Err ==> fmt_result(Ok(()), pieces)
                == pieces[i],
{
    lemma_fmt_result(Ok(()), pieces);
}

/// When no call fails, the write succeeds, and makes just the calls that the
/// text needs. An empty text needs none.
pub proof fn write_succeeds_when_no_call_fails(state: Writing, replies: spec_fn(nat) -> Status)
    requires
        forall|i: nat| i < calls_needed(state.pending) ==> !#[trigger] is_error(replies(i)),
    ensures
        run(state, replies).result == Ok::<(), Status>(()),
        run(state, replies).calls.len() == calls_needed(state.pending),
        state.pending.len() == 0 ==> calls_needed(state.pending) == 0,
{
    let m = calls_needed(state.pending);
    assert forall|h: nat| h < m implies !#[trigger] is_error(replies(0 + h)) by {
        assert(0 + h == h);
    }
    lemma_result(state, None, replies, 0, m);
}

/// The first call that fails is the last one made, and the write returns its
/// status code.
pub proof fn first_error_ends_the_write(
    state: Writing,
    replies: spec_fn(nat) -> Status,
    failed: nat,
)
    requires
        failed < calls_needed(state.pending),
        is_error(replies(failed)),
        forall|i: nat| i < failed ==> !#[trigger] is_error(replies(i)),
    ensures
        run(state, replies).result == Err::<(), Status>(replies(failed)),
        run(state, replies).calls.len() == failed + 1,
{
    assert forall|h: nat| h < failed implies !#[trigger] is_error(replies(0 + h)) by {
        assert(0 + h == h);
    }
    lemma_result(state, None, replies, 0, failed);
}

/// Each call is given the next chunk of the text in UCS-2, with a terminator.
pub proof fn calls_send_the_chunks_in_order(
    state: Writing,
    replies: spec_fn(nat) -> Status,
    i: nat,
)
    requires
        state.buffer.len() == BUFFER_LEN,
        i < run(state, replies).calls.len(),
    ensures
        run(state, replies).calls[i as int].len() == BUFFER_LEN,
        0 < chunk(state.pending, i).len() <= CHUNK_LEN,
        run(state, replies).calls[i as int].take(chunk(state.pending, i).len() as int + 1) == encoded(
            chunk(state.pending, i),
        ).push(0),
{
    lemma_calls(state, None, replies, 0, i);
}

/// The chunks of a text follow each other without gap or overlap, and together
/// they are the text.
pub proof fn chunks_make_up_the_text(text: Seq<char>, i: nat)
    ensures
        text.take(sent(text, i)) + chunk(text, i) == text.take(sent(text, i + 1)),
        sent(text, 0) == 0,
        text.take(sent(text, calls_needed(text))) == text,
{
    assert(text.take(sent(text, i)) + chunk(text, i) =~= text.take(sent(text, i + 1)));
    assert(text.take(sent(text, calls_needed(text))) =~= text);
}

/// However the calls turn out, the console displays the UCS-2 units of the
/// characters that were sent; after a write without failures, those of the
/// whole text. This holds of a text in which no character has the unit zero,
/// which would end what is displayed of its chunk.
pub proof fn console_displays_what_was_sent(state: Writing, replies: spec_fn(nat) -> Status)
    requires
        state.buffer.len() == BUFFER_LEN,
        displayable(state.pending),
    ensures
        ({
            let write = run(state, replies);
            let text = state.pending;
            &&& console(write.calls) == encoded(text.take(sent(text, write.calls.len())))
            &&& write.result is Ok ==> console(write.calls) == encoded(text)
        }),
{
    lemma_console(state, None, replies, 0);
    let text = state.pending;
    if run(state, replies).result is Ok {
        lemma_ok_sends_all(state, None, replies, 0);
        chunks_make_up_the_text(text, 0);
    }
}

/// The buffers that the calls of a formatted write are given, where each piece
/// of its text is written to the protocol at `out`. `replies[i]` are the status
/// codes of the calls for the `i`-th piece.
pub open spec fn fmt_calls(
    out: Address,
    pieces: Seq<Seq<char>>,
    replies: Seq<spec_fn(nat) -> Status>,
) -> Seq<Seq<u16>>
    decreases pieces.len(),
{
    if pieces.len() == 0 {
        Seq::empty()
    } else {
        run(write_of(out, pieces[0]), replies[0]).calls + fmt_calls(
            out,
            pieces.skip(1),
            replies.skip(1),
        )
    }
}

/// Whether every piece of a text is written without failure.
pub open spec fn all_written(
    out: Address,
    pieces: Seq<Seq<char>>,
    replies: Seq<spec_fn(nat) -> Status>,
) -> bool {
    &&& replies.len() == pieces.len()
    &&& forall|i: int|
        0 <= i < pieces.len() ==> run(write_of(out, #[trigger] pieces[i]), replies[i]).result is Ok
}

/// The pieces of a formatted write, however many there are, are displayed as
/// one text.
pub proof fn pieces_are_displayed_as_one_text(
    out: Address,
    pieces: Seq<Seq<char>>,
    replies: Seq<spec_fn(nat) -> Status>,
)
    requires
        all_written(out, pieces, replies),
        forall|i: int| 0 <= i < pieces.len() ==> displayable(#[trigger] pieces[i]),
    ensures
        console(fmt_calls(out, pieces, replies)) == encoded(pieces.flatten()),
    decreases pieces.len(),
{
    if pieces.len() == 0 {
        assert(encoded(pieces.flatten()) =~= Seq::empty());
    } else {
        let later = pieces.skip(1);
        assert(later =~= pieces.drop_first());
        assert forall|i: int| 0 <= i < later.len() implies displayable(#[trigger] later[i]) && run(
            write_of(out, later[i]),
            replies.skip(1)[i],
        ).result is Ok by {
            assert(later[i] == pieces[i + 1]);
        }
        pieces_are_displayed_as_one_text(out, later, replies.skip(1));
        let state = write_of(out, pieces[0]);
        assert(displayable(pieces[0]));
        console_displays_what_was_sent(state, replies[0]);
        lemma_console_concat(
            run(state, replies[0]).calls,
            fmt_calls(out, later, replies.skip(1)),
        );
        assert(encoded(pieces[0]) + encoded(later.flatten()) =~= encoded(pieces.flatten()));
    }
}

/// If the last piece of a formatted write fails, the console displays the
/// pieces before it, and of the last piece what was sent.
pub proof fn failed_piece_is_displayed_as_far_as_sent(
    out: Address,
    pieces: Seq<Seq<char>>,
    replies: Seq<spec_fn(nat) -> Status>,
    last: Seq<char>,
    last_replies: spec_fn(nat) -> Status,
)
    requires
        all_written(out, pieces, replies),
        forall|i: int| 0 <= i < pieces.len() ==> displayable(#[trigger] pieces[i]),
        displayable(last),
    ensures
        ({
            let last_calls = run(write_of(out, last), last_replies).calls;
            console(fmt_calls(out, pieces, replies) + last_calls) == encoded(
                pieces.flatten() + last.take(sent(last, last_calls.len())),
            )
        }),
{
    let state = write_of(out, last);
    let last_calls = run(state, last_replies).calls;
    pieces_are_displayed_as_one_text(out, pieces, replies);
    console_displays_what_was_sent(state, last_replies);
    lemma_console_concat(fmt_calls(out, pieces, replies), last_calls);
    let part = last.take(sent(last, last_calls.len()));
    assert(encoded(pieces.flatten()) + encoded(part) =~= encoded(pieces.flatten() + part));
}

proof fn lemma_console_concat(first: Seq<Seq<u16>>, second: Seq<Seq<u16>>)
    ensures
        console(first + second) == console(first) + console(second),
    decreases first.len(),
{
    if first.len() == 0 {
        assert(first + second =~= second);
        assert(console(first) + console(second) =~= console(second));
    } else {
        lemma_console_concat(first.skip(1), second);
        assert((first + second).skip(1) =~= first.skip(1) + second);
        assert(console(first + second) =~= console(first) + console(second));
    }
}

/// A write that succeeds has made all the calls that the text needs.
proof fn lemma_ok_sends_all(
    state: Writing,
    reply: Option<Status>,
    replies: spec_fn(nat) -> Status,
    k: nat,
)
    requires
        run_from(state, reply, replies, k).result is Ok,
    ensures
        run_from(state, reply, replies, k).calls.len() == calls_needed(state.pending),
    decreases state.pending.len(),
{
    let (next, step) = state.step(reply);
    if step == WriteStep::Output {
        lemma_ok_sends_all(next, Some(replies(k)), replies, k + 1);
        assert(calls_needed(next.pending) == calls_needed(state.pending) - 1);
    }
}

/// A write succeeds exactly when every call that it made was answered with the
/// high bit clear. Otherwise only its last call was not, and the write returns
/// that status code. It makes no call exactly when there is no text.
pub proof fn write_goes_by_the_high_bits(state: Writing, replies: spec_fn(nat) -> Status)
    ensures
        ({
            let write = run(state, replies);
            let n = write.calls.len();
            &&& n == 0 <==> state.pending.len() == 0
            &&& write.result is Ok <==> (forall|i: nat|
                i < n ==> #[trigger] replies(i) & MAX_BIT == 0)
            &&& write.result is Err ==> {
                &&& n > 0
                &&& write.result == Err::<(), Status>(replies((n - 1) as nat))
                &&& replies((n - 1) as nat) & MAX_BIT != 0
                &&& forall|i: nat| i < n - 1 ==> #[trigger] replies(i) & MAX_BIT == 0
            }
        }),
{
    lemma_replies(state, None, replies, 0);
    assert forall|i: nat| #[trigger] replies(i) & MAX_BIT == 0 <==> !is_error(replies(0 + i)) by {
        errors_have_the_high_bit(replies(i));
        assert(0 + i == i);
    }
}

proof fn lemma_replies(
    state: Writing,
    reply: Option<Status>,
    replies: spec_fn(nat) -> Status,
    k: nat,
)
    requires
        reply is Some ==> !is_error(reply->0),
    ensures
        ({
            let write = run_from(state, reply, replies, k);
            let n = write.calls.len();
            &&& n == 0 <==> state.pending.len() == 0
            &&& write.result is Ok ==> (forall|i: nat|
                i < n ==> !#[trigger] is_error(replies(k + i)))
            &&& write.result is Err ==> {
                &&& n > 0
                &&& write.result == Err::<(), Status>(replies((k + n - 1) as nat))
                &&& is_error(replies((k + n - 1) as nat))
                &&& forall|i: nat| i < n - 1 ==> !#[trigger] is_error(replies(k + i))
            }
        }),
    decreases state.pending.len(),
{
    if state.pending.len() > 0 {
        let write = run_from(state, reply, replies, k);
        let n = write.calls.len();
        let (next, step) = state.step(reply);
        let rest = run_from(next, Some(replies(k)), replies, k + 1);
        if is_error(replies(k)) {
            assert(rest.calls.len() == 0);
        } else {
            lemma_replies(next, Some(replies(k)), replies, k + 1);
            assert forall|i: nat|
                i < n && !(write.result is Err && i == n - 1) implies !#[trigger] is_error(
                replies(k + i),
            ) by {
                if i > 0 {
                    let h = (i - 1) as nat;
                    assert(k + 1 + h == k + i);
                    assert(!is_error(replies(k + 1 + h)));
                }
            }
        }
    }
}

/// The `j`-th unit of the `i`-th call stands for the character that comes `j`
/// places after the 127 characters of each call before it; behind the characters
/// of a call there is a zero.
pub proof fn calls_carry_the_characters_of_the_text(
    state: Writing,
    replies: spec_fn(nat) -> Status,
    i: nat,
    j: int,
)
    requires
        state.buffer.len() == 128,
        i < run(state, replies).calls.len(),
        0 <= j <= 127,
    ensures
        ({
            let call = run(state, replies).calls[i as int];
            let text = state.pending;
            let at = 127 * i + j;
            &&& call.len() == 128
            &&& 127 * i < text.len()
            &&& j < 127 && at < text.len() ==> (text[at] as u32 - call[j]) % 0x1_0000 == 0
            &&& j < 127 && at < text.len() && text[at] as u32 <= 0xffff ==> call[j] as u32
                == text[at] as u32
            &&& at == text.len() || j == 127 ==> (at <= text.len() ==> call[j] == 0)
        }),
{
    calls_send_the_chunks_in_order(state, replies, i);
    let call = run(state, replies).calls[i as int];
    let part = chunk(state.pending, i);
    units_of_a_text_are_its_code_points(part);
    let front = call.take(part.len() as int + 1);
    assert(front == encoded(part).push(0));
    let at = 127 * i + j;
    if at <= state.pending.len() {
        assert(call[j] == front[j]);
        if j < part.len() {
            assert(front[j] == encoded(part)[j]);
            assert(part[j] == state.pending[at]);
        }
    }
}

/// The calls of a write that succeeds are as few as can carry the text.
pub proof fn successful_write_makes_no_call_too_many(
    state: Writing,
    replies: spec_fn(nat) -> Status,
)
    requires
        run(state, replies).result is Ok,
    ensures
        state.pending.len() <= 127 * run(state, replies).calls.len() < state.pending.len() + 127,
{
    lemma_ok_sends_all(state, None, replies, 0);
}

/// What is displayed of a buffer is its beginning, up to the first zero, or all
/// of it if there is none.
pub proof fn display_ends_at_the_first_zero(buffer: Seq<u16>)
    ensures
        shown(buffer).len() <= buffer.len(),
        shown(buffer) == buffer.take(shown(buffer).len() as int),
        forall|i: int| 0 <= i < shown(buffer).len() ==> #[trigger] buffer[i] != 0,
        shown(buffer).len() < buffer.len() ==> buffer[shown(buffer).len() as int] == 0,
    decreases buffer.len(),
{
    if buffer.len() == 0 || buffer[0] == 0 {
        assert(buffer.take(0) =~= Seq::empty());
    } else {
        let rest = buffer.skip(1);
        display_ends_at_the_first_zero(rest);
        let n = shown(rest).len() as int;
        assert(seq![buffer[0]] + rest.take(n) =~= buffer.take(n + 1));
        assert forall|i: int| 0 <= i < n + 1 implies #[trigger] buffer[i] != 0 by {
            if i > 0 {
                assert(rest[i - 1] == buffer[i]);
            }
        }
    }
}

/// The console displays the calls one after the other.
pub proof fn console_displays_call_by_call(first: Seq<Seq<u16>>, last: Seq<u16>)
    ensures
        console(Seq::empty()) == Seq::<u16>::empty(),
        console(first.push(last)) == console(first) + shown(last),
{
    lemma_console_concat(first, seq![last]);
    assert(first.push(last) =~= first + seq![last]);
    assert(console(seq![last].skip(1)) =~= Seq::empty());
    assert(console(seq![last]) =~= shown(last));
}

/// A text that is written without failure is displayed character by character:
/// there is a unit for each, in the same place, and for those of the basic plane
/// it is the code point. This holds of a text in which the code point of no
/// character is a multiple of the number of units.
pub proof fn text_is_displayed_character_by_character(
    state: Writing,
    replies: spec_fn(nat) -> Status,
)
    requires
        state.buffer.len() == 128,
        forall|i: int|
            0 <= i < state.pending.len() ==> #[trigger] state.pending[i] as u32 as int % 0x1_0000
                != 0,
        run(state, replies).result is Ok,
    ensures
        ({
            let display = console(run(state, replies).calls);
            let text = state.pending;
            &&& display.len() == text.len()
            &&& forall|i: int|
                0 <= i < text.len() ==> (text[i] as u32 - #[trigger] display[i]) % 0x1_0000 == 0
            &&& forall|i: int|
                0 <= i < text.len() && text[i] as u32 <= 0xffff ==> #[trigger] display[i] as u32
                    == text[i] as u32
        }),
{
    let text = state.pending;
    assert forall|i: int| 0 <= i < text.len() implies ucs2(#[trigger] text[i]) != 0 by {
        units_are_code_points(text[i], text[i]);
    }
    console_displays_what_was_sent(state, replies);
    units_of_a_text_are_its_code_points(text);
}

} // verus!
