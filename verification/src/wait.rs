//! Waiting for a file to be written.
//!
//! The time allowed is used up a millisecond at a time. Each millisecond passes
//! before the file is read, so that the last read comes when all of the time has
//! passed, and a file that is written within it is not missed.

use vstd::prelude::*;

use crate::span::{Span, NANOS_PER_MILLI};
use crate::text::{blank, is_blank};

verus! {

/// What reading the file gave.
#[derive(Debug)]
pub enum FileRead {
    /// The file holds this text.
    Content(String),
    /// There is no such file.
    NotFound,
    /// The file could not be read, for this reason.
    Failed(String),
}

/// A file that is being waited for. Its view is the time that will be left when the
/// file is read next, in nanoseconds.
#[derive(Debug)]
pub struct FileWait {
    left: Span,
}

/// What to do next about a file that is being waited for.
#[derive(Debug)]
pub enum WaitStep {
    /// Let `pause` pass, read the file, and hand what that gave to `wait`.
    Read { wait: FileWait, pause: Span },
    /// Stop: the text of the file, or why it could not be had.
    Done(Result<String, String>),
}

/// What to do next, as a value.
pub enum WaitModel {
    /// Let `pause` nanoseconds pass and read the file; `left` are left then.
    Waiting { pause: nat, left: nat },
    /// Stop.
    Done(Result<Seq<char>, Seq<char>>),
}

impl View for FileWait {
    type V = nat;

    closed spec fn view(&self) -> nat {
        self.left@
    }
}

impl View for WaitStep {
    type V = WaitModel;

    open spec fn view(&self) -> WaitModel {
        match self {
            WaitStep::Read { wait, pause } => WaitModel::Waiting { pause: pause@, left: wait@ },
            WaitStep::Done(Ok(content)) => WaitModel::Done(Ok(content@)),
            WaitStep::Done(Err(reason)) => WaitModel::Done(Err(reason@)),
        }
    }
}

/// Whether the file is to be read again: it is not there yet, or it is empty,
/// which is how it looks before its text is written.
pub open spec fn unsettled(read: FileRead) -> bool {
    match read {
        FileRead::Content(content) => blank(content@),
        FileRead::NotFound => true,
        FileRead::Failed(_) => false,
    }
}

/// How much of `pending` nanoseconds passes before the next read: a millisecond, or
/// all of it where that is less.
pub open spec fn tick(pending: nat) -> nat {
    if pending < NANOS_PER_MILLI {
        pending
    } else {
        NANOS_PER_MILLI as nat
    }
}

/// What to do with `pending` nanoseconds left: read the file, unless there is no
/// time left.
pub open spec fn waiting(pending: nat) -> WaitModel {
    if pending > 0 {
        WaitModel::Waiting { pause: tick(pending), left: (pending - tick(pending)) as nat }
    } else {
        WaitModel::Done(Err("File was not created on time"@))
    }
}

/// What to do after `read`, with `left` nanoseconds left.
pub open spec fn after_read(left: nat, read: FileRead) -> WaitModel {
    match read {
        FileRead::Content(content) if !blank(content@) => WaitModel::Done(Ok(content@)),
        FileRead::Failed(reason) => WaitModel::Done(Err(reason@)),
        _ => waiting(left),
    }
}

/// Waits for a file to contain non-empty content for a maximum period of time.
pub fn wait_for_file(pending_wait: Span) -> (step: WaitStep)
    ensures
        step@ == waiting(pending_wait@),
        match step {
            WaitStep::Read { wait, pause } => {
                &&& pause@ + wait@ == pending_wait@
                &&& 0 < pause@ <= 1_000_000
                &&& wait@ > 0 ==> pause@ == 1_000_000
            },
            WaitStep::Done(result) => {
                &&& pending_wait@ == 0
                &&& result is Err
                &&& result->Err_0@ == "File was not created on time"@
            },
        },
{
    if pending_wait.is_zero() {
        return WaitStep::Done(Err("File was not created on time".to_owned()));
    }
    let short: bool = pending_wait.secs() == 0 && pending_wait.subsec_nanos() < NANOS_PER_MILLI;
    let pause: Span = if short {
        pending_wait
    } else {
        Span::from_millis(1)
    };
    WaitStep::Read { wait: FileWait { left: pending_wait.minus(pause) }, pause }
}

impl FileWait {
    /// The time that will be left when the file is read next.
    pub fn remaining(&self) -> (remaining: Span)
        ensures
            remaining@ == self@,
    {
        self.left
    }

    /// Takes note of what reading the file gave.
    pub fn resume(self, read: FileRead) -> (step: WaitStep)
        ensures
            step@ == after_read(self@, read),
            read matches FileRead::Failed(reason) ==> {
                &&& step is Done
                &&& step->Done_0 is Err
                &&& step->Done_0->Err_0@ == reason@
            },
            read matches FileRead::Content(content) ==> !blank(content@) ==> {
                &&& step is Done
                &&& step->Done_0 is Ok
                &&& step->Done_0->Ok_0@ == content@
            },
            read is NotFound || (read is Content && blank(read->Content_0@)) ==> match step {
                    WaitStep::Read { wait, pause } => {
                        &&& pause@ + wait@ == self@
                        &&& 0 < pause@ <= 1_000_000
                        &&& wait@ > 0 ==> pause@ == 1_000_000
                    },
                    WaitStep::Done(result) => {
                        &&& self@ == 0
                        &&& result is Err
                        &&& result->Err_0@ == "File was not created on time"@
                    },
                },
    {
        match read {
            FileRead::Content(content) => if is_blank(content.as_str()) {
                wait_for_file(self.left)
            } else {
                WaitStep::Done(Ok(content))
            },
            FileRead::NotFound => wait_for_file(self.left),
            FileRead::Failed(reason) => WaitStep::Done(Err(reason)),
        }
    }
}

/// What to do once `reads` came one after the other, beginning with `step`.
pub open spec fn after_reads(step: WaitModel, reads: Seq<FileRead>) -> WaitModel
    decreases reads.len(),
{
    match step {
        WaitModel::Waiting { left, .. } if reads.len() > 0 => after_reads(
            after_read(left, reads[0]),
            reads.skip(1),
        ),
        _ => step,
    }
}

/// How much time passes in all, beginning with `step`, while `reads` come one after
/// the other, and before the next one where there is to be one.
pub open spec fn time_passed(step: WaitModel, reads: Seq<FileRead>) -> nat
    decreases reads.len(),
{
    match step {
        WaitModel::Waiting { pause, left } => if reads.len() > 0 {
            pause + time_passed(after_read(left, reads[0]), reads.skip(1))
        } else {
            pause
        },
        WaitModel::Done(_) => 0,
    }
}

/// The first read that settles the matter within the time allowed decides: its
/// text is handed on, or its error.
pub proof fn law_first_settled_read_decides(pending: nat, reads: Seq<FileRead>, k: int)
    requires
        0 <= k < reads.len(),
        forall|i: int| 0 <= i < k ==> unsettled(#[trigger] reads[i]),
        !unsettled(reads[k]),
        k * NANOS_PER_MILLI < pending,
    ensures
        reads[k] matches FileRead::Content(content) ==> after_reads(waiting(pending), reads)
            == WaitModel::Done(Ok(content@)),
        reads[k] matches FileRead::Failed(reason) ==> after_reads(waiting(pending), reads)
            == WaitModel::Done(Err(reason@)),
    decreases k,
{
    if k > 0 {
        assert(unsettled(reads[0]));
        let rest = reads.skip(1);
        assert forall|i: int| 0 <= i < k - 1 implies unsettled(#[trigger] rest[i]) by {
            assert(rest[i] == reads[i + 1]);
        }
        law_first_settled_read_decides((pending - tick(pending)) as nat, rest, k - 1);
        assert(rest[k - 1] == reads[k]);
    } else {
        reveal_with_fuel(after_reads, 2);
    }
}

/// A wait is given up once there were so many reads that settle nothing that a
/// millisecond for each takes all of the time allowed, and no sooner. The last of
/// them is made when no time is left.
pub proof fn law_gives_up_when_time_is_up(pending: nat, reads: Seq<FileRead>)
    requires
        forall|i: int| 0 <= i < reads.len() ==> unsettled(#[trigger] reads[i]),
    ensures
        match after_reads(waiting(pending), reads) {
            WaitModel::Waiting { left, .. } => {
                &&& reads.len() * NANOS_PER_MILLI < pending
                &&& left == 0 <==> pending <= (reads.len() + 1) * NANOS_PER_MILLI
            },
            WaitModel::Done(result) => {
                &&& reads.len() * NANOS_PER_MILLI >= pending
                &&& result == Err::<Seq<char>, Seq<char>>("File was not created on time"@)
            },
        },
    decreases reads.len(),
{
    if pending > 0 && reads.len() > 0 {
        assert(unsettled(reads[0]));
        let rest = reads.skip(1);
        assert forall|i: int| 0 <= i < rest.len() implies unsettled(#[trigger] rest[i]) by {
            assert(rest[i] == reads[i + 1]);
        }
        law_gives_up_when_time_is_up((pending - tick(pending)) as nat, rest);
    }
}

/// A wait lasts as long as was asked for: when it is given up, all of the time
/// allowed has passed, and until then what has passed and what is left make it up.
pub proof fn law_all_of_the_time_passes(pending: nat, reads: Seq<FileRead>)
    requires
        forall|i: int| 0 <= i < reads.len() ==> unsettled(#[trigger] reads[i]),
    ensures
        match after_reads(waiting(pending), reads) {
            WaitModel::Waiting { left, .. } => time_passed(waiting(pending), reads) + left
                == pending,
            WaitModel::Done(_) => time_passed(waiting(pending), reads) == pending,
        },
    decreases reads.len(),
{
    if pending > 0 && reads.len() > 0 {
        assert(unsettled(reads[0]));
        let rest = reads.skip(1);
        assert forall|i: int| 0 <= i < rest.len() implies unsettled(#[trigger] rest[i]) by {
            assert(rest[i] == reads[i + 1]);
        }
        law_all_of_the_time_passes((pending - tick(pending)) as nat, rest);
    }
}

/// No wait takes longer than was asked for, whatever the reads give.
pub proof fn law_no_more_than_the_time_passes(pending: nat, reads: Seq<FileRead>)
    ensures
        time_passed(waiting(pending), reads) <= pending,
    decreases reads.len(),
{
    if pending > 0 && reads.len() > 0 {
        if unsettled(reads[0]) {
            law_no_more_than_the_time_passes((pending - tick(pending)) as nat, reads.skip(1));
        } else {
            reveal_with_fuel(time_passed, 2);
        }
    }
}

/// The text that a wait ends with is never blank.
pub proof fn law_content_is_not_blank(pending: nat, reads: Seq<FileRead>)
    ensures
        after_reads(waiting(pending), reads) matches WaitModel::Done(Ok(content)) ==> !blank(
            content,
        ),
    decreases reads.len(),
{
    if pending > 0 && reads.len() > 0 {
        if unsettled(reads[0]) {
            law_content_is_not_blank((pending - tick(pending)) as nat, reads.skip(1));
        } else {
            reveal_with_fuel(after_reads, 2);
        }
    }
}

/// While time is left, some of it passes before the next read, no more than a
/// millisecond, and less than that only where no more is left. Once none is left, the
/// wait is given up.
pub proof fn law_time_is_used_up_by_the_millisecond(pending: nat)
    ensures
        match waiting(pending) {
            WaitModel::Waiting { pause, left } => {
                &&& pause + left == pending
                &&& 0 < pause <= 1_000_000
                &&& left > 0 ==> pause == 1_000_000
            },
            WaitModel::Done(result) => {
                &&& pending == 0
                &&& result == Err::<Seq<char>, Seq<char>>("File was not created on time"@)
            },
        },
{
}

/// Text in the file is handed on as it stands and an error is handed on too. A file
/// that is missing or blank is waited for on, with the time that is left.
pub proof fn law_read_decides_or_changes_nothing(left: nat, content: String, reason: String)
    ensures
        !blank(content@) ==> after_read(left, FileRead::Content(content)) == WaitModel::Done(
            Ok(content@),
        ),
        blank(content@) ==> after_read(left, FileRead::Content(content)) == waiting(left),
        after_read(left, FileRead::NotFound) == waiting(left),
        after_read(left, FileRead::Failed(reason)) == WaitModel::Done(Err(reason@)),
        unsettled(FileRead::NotFound),
        unsettled(FileRead::Content(content)) <==> blank(content@),
        !unsettled(FileRead::Failed(reason)),
{
}

} // verus!
