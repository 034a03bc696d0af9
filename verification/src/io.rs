//! The descriptor-based calls: read, write and their vectored forms, for
//! descriptor 0 (standard input) and descriptors 1 and 2 (standard output).
//!
//! A null buffer pointer is written `None`. A call returns the step that the
//! console adapter asks for, or the error.

use vstd::prelude::*;
use crate::error::IoError;
use crate::stdio::{
    spec_read_delivered,
    spec_read_first_step,
    spec_read_lookahead,
    ReadStep,
    Stdin,
    Stdout,
    WriteStep,
};

verus! {

/// The largest number of elements a vectored call accepts.
pub const IOV_MAX: i32 = 1024;

/// What a descriptor allows.
#[derive(Clone, Copy, Debug, PartialEq, Eq, Structural)]
pub enum Descriptor {
    /// Descriptor 0: read only.
    Input,
    /// Descriptors 1 and 2: write only.
    Output,
    /// Any other number.
    Unknown,
}

/// The kind of the descriptor with number `fd`.
pub open spec fn spec_descriptor(fd: i32) -> Descriptor {
    if fd == 0 {
        Descriptor::Input
    } else if fd == 1 || fd == 2 {
        Descriptor::Output
    } else {
        Descriptor::Unknown
    }
}

/// The kind of the descriptor with number `fd`.
pub fn descriptor(fd: i32) -> (kind: Descriptor)
    ensures
        kind == spec_descriptor(fd),
{
    if fd == 0 {
        Descriptor::Input
    } else if fd == 1 || fd == 2 {
        Descriptor::Output
    } else {
        Descriptor::Unknown
    }
}

/// Reads from the file indicated by `fd` into `buf`.
///
/// A null buffer is an invalid address, whatever the descriptor. Descriptor
/// 0 starts a blocking read of standard input; descriptors 1 and 2 do not
/// permit reading; any other descriptor is bad. On an error neither the
/// buffer nor the lookahead changes.
pub fn sys_read(stdin: &mut Stdin, fd: i32, buf: Option<&mut [u8]>) -> (result: Result<
    ReadStep,
    IoError,
>)
    ensures
        buf is None ==> result == Err::<ReadStep, IoError>(IoError::BadAddress),
        buf is Some && spec_descriptor(fd) == Descriptor::Output ==> result == Err::<
            ReadStep,
            IoError,
        >(IoError::NotPermitted),
        buf is Some && spec_descriptor(fd) == Descriptor::Unknown ==> result == Err::<
            ReadStep,
            IoError,
        >(IoError::BadDescriptor),
        buf is Some && spec_descriptor(fd) == Descriptor::Input ==> {
            &&& result == Ok::<ReadStep, IoError>(
                spec_read_first_step(old(stdin)@, buf.unwrap()@.len() as int),
            )
            &&& final(buf.unwrap())@ == spec_read_delivered(old(stdin)@, buf.unwrap()@)
            &&& final(stdin)@ == spec_read_lookahead(old(stdin)@, buf.unwrap()@.len() as int)
        },
        result is Err ==> final(stdin)@ == old(stdin)@,
        buf is Some && result is Err ==> final(buf.unwrap())@ == buf.unwrap()@,
{
    match buf {
        None => Err(IoError::BadAddress),
        Some(dst) => match descriptor(fd) {
            Descriptor::Input => Ok(stdin.read(dst)),
            Descriptor::Output => Err(IoError::NotPermitted),
            Descriptor::Unknown => Err(IoError::BadDescriptor),
        },
    }
}

/// What a write of `buf` to the file indicated by `fd` comes to.
pub open spec fn spec_write<'a>(fd: i32, buf: Option<&'a [u8]>) -> Result<WriteStep<'a>, IoError> {
    match buf {
        None => Err(IoError::BadAddress),
        Some(src) => match spec_descriptor(fd) {
            Descriptor::Input => Err(IoError::NotPermitted),
            Descriptor::Output => if src@.len() == 0 {
                Ok(WriteStep::Done(0))
            } else {
                Ok(WriteStep::Emit(src))
            },
            Descriptor::Unknown => Err(IoError::BadDescriptor),
        },
    }
}

/// Writes `buf` to the file indicated by `fd`.
///
/// A null buffer is an invalid address, whatever the descriptor. Descriptor
/// 0 does not permit writing; descriptors 1 and 2 hand the bytes, as they
/// are, to standard output; any other descriptor is bad.
pub fn write_impl<'a>(stdout: &Stdout, fd: i32, buf: Option<&'a [u8]>) -> (result: Result<
    WriteStep<'a>,
    IoError,
>)
    ensures
        result == spec_write(fd, buf),
{
    match buf {
        None => Err(IoError::BadAddress),
        Some(src) => match descriptor(fd) {
            Descriptor::Input => Err(IoError::NotPermitted),
            Descriptor::Output => Ok(stdout.write(src)),
            Descriptor::Unknown => Err(IoError::BadDescriptor),
        },
    }
}

/// Writes `buf` to the file indicated by `fd`.
pub fn sys_write<'a>(stdout: &Stdout, fd: i32, buf: Option<&'a [u8]>) -> (result: Result<
    WriteStep<'a>,
    IoError,
>)
    ensures
        result == spec_write(fd, buf),
{
    write_impl(stdout, fd, buf)
}

/// A write of no bytes to a descriptor that can be written to succeeds
/// with a count of 0 and does not reach the console. (For reads, the same
/// is stated of the first step of a read of standard input.)
pub proof fn lemma_zero_length_write<'a>(fd: i32, buf: &'a [u8])
    requires
        buf@.len() == 0,
        spec_descriptor(fd) == Descriptor::Output,
    ensures
        spec_write(fd, Some(buf)) == Ok::<WriteStep<'a>, IoError>(WriteStep::Done(0)),
{
}

/// What a vectored call does next.
#[derive(Clone, Copy, Debug, PartialEq, Eq)]
pub enum VectoredStep {
    /// Transfer the element with this index, then report what came of it.
    Transfer { index: usize },
    /// The call is over with this result; no further element is touched.
    Done(Result<isize, IoError>),
}

/// The progress of a vectored call, as a plain value.
pub struct VectoredProgress {
    /// Number of elements the caller passed.
    pub count: int,
    /// Index of the element to transfer next.
    pub next: int,
    /// Bytes transferred so far.
    pub total: int,
    /// The result, once the call is over.
    pub outcome: Option<Result<isize, IoError>>,
}

impl VectoredProgress {
    /// The progress of a call over `count` elements before any transfer.
    pub open spec fn start(count: int) -> VectoredProgress {
        VectoredProgress { count, next: 0, total: 0, outcome: None }
    }

    /// The step that this progress asks for.
    pub open spec fn step(self) -> VectoredStep {
        match self.outcome {
            Some(result) => VectoredStep::Done(result),
            None => if self.next < self.count {
                VectoredStep::Transfer { index: self.next as usize }
            } else {
                VectoredStep::Done(Ok(self.total as isize))
            },
        }
    }

    /// Whether a transfer is asked for.
    pub open spec fn transferring(self) -> bool {
        self.outcome is None && self.next < self.count
    }

    /// The progress after the element asked for moved `transferred` of its
    /// `requested` bytes: the total grows by that, and the call is over if
    /// the element fell short. Without a transfer asked for, nothing changes.
    pub open spec fn after_transfer(self, requested: int, transferred: int) -> VectoredProgress {
        if !self.transferring() {
            self
        } else if transferred < requested {
            VectoredProgress {
                total: self.total + transferred,
                outcome: Some(Ok((self.total + transferred) as isize)),
                ..self
            }
        } else {
            VectoredProgress { total: self.total + transferred, next: self.next + 1, ..self }
        }
    }

    /// The progress after the element asked for failed with `error`: the
    /// call is over with that error. Without a transfer asked for, nothing
    /// changes.
    pub open spec fn after_error(self, error: IoError) -> VectoredProgress {
        if !self.transferring() {
            self
        } else {
            VectoredProgress { outcome: Some(Err(error)), ..self }
        }
    }

    /// The progress after the results of one element after the other came
    /// in: each is the pair of the bytes requested and the bytes moved.
    pub open spec fn after_transfers(self, results: Seq<(int, int)>) -> VectoredProgress
        decreases results.len(),
    {
        if results.len() == 0 {
            self
        } else {
            self.after_transfers(results.drop_last()).after_transfer(
                results.last().0,
                results.last().1,
            )
        }
    }
}

/// The sum of the bytes moved by the first `n` of `results`.
pub open spec fn spec_moved(results: Seq<(int, int)>, n: int) -> int
    decreases n,
{
    if n <= 0 {
        0
    } else {
        spec_moved(results, n - 1) + results[n - 1].1
    }
}

/// A vectored read or write in progress.
pub struct VectoredIo {
    fd: i32,
    count: usize,
    next: usize,
    total: isize,
    outcome: Option<Result<isize, IoError>>,
}

impl VectoredIo {
    /// The progress of the call.
    pub closed spec fn view(&self) -> VectoredProgress {
        VectoredProgress {
            count: self.count as int,
            next: self.next as int,
            total: self.total as int,
            outcome: self.outcome,
        }
    }

    /// The descriptor the call is made on.
    pub closed spec fn spec_fd(&self) -> i32 {
        self.fd
    }

    #[verifier::type_invariant]
    spec fn well_formed(&self) -> bool {
        &&& self.count <= IOV_MAX
        &&& self.next <= self.count
        &&& self.outcome is None ==> self.total >= 0
    }

    /// Whether `iocnt` is an element count that a vectored call accepts.
    pub open spec fn spec_valid_count(iocnt: i32) -> bool {
        0 <= iocnt <= IOV_MAX
    }

    /// Starts a vectored call over `iocnt` elements on `fd`. A count below
    /// 0 or above 1024 is an invalid argument, and no element is looked at.
    pub fn begin(fd: i32, iocnt: i32) -> (result: Result<VectoredIo, IoError>)
        ensures
            !Self::spec_valid_count(iocnt) ==> result is Err && result->Err_0
                == IoError::InvalidArgument,
            Self::spec_valid_count(iocnt) ==> result is Ok && result->Ok_0@
                == VectoredProgress::start(iocnt as int) && result->Ok_0.spec_fd() == fd,
    {
        if iocnt < 0 || iocnt > IOV_MAX {
            return Err(IoError::InvalidArgument);
        }
        Ok(VectoredIo { fd, count: iocnt as usize, next: 0, total: 0, outcome: None })
    }

    /// The descriptor the call is made on.
    pub fn fd(&self) -> (fd: i32)
        ensures
            fd == self.spec_fd(),
    {
        self.fd
    }

    /// The bytes transferred so far.
    pub fn total(&self) -> (total: isize)
        ensures
            total == self@.total,
    {
        self.total
    }

    /// The step to perform next.
    pub fn step(&self) -> (step: VectoredStep)
        ensures
            step == self@.step(),
    {
        proof {
            use_type_invariant(self);
        }
        match self.outcome {
            Some(result) => VectoredStep::Done(result),
            None => if self.next < self.count {
                VectoredStep::Transfer { index: self.next }
            } else {
                VectoredStep::Done(Ok(self.total))
            },
        }
    }

    /// Records that the transfer of the element asked for gave `result`,
    /// with `requested` bytes in the element. An error ends the call with
    /// that error. A count adds to the total; a count below `requested` ends
    /// the call with the total, and no further element is attempted.
    pub fn record(&mut self, requested: usize, result: Result<usize, IoError>)
        requires
            old(self)@.transferring() ==> (result matches Ok(n) ==> old(self)@.total + n
                <= isize::MAX),
        ensures
            final(self).spec_fd() == old(self).spec_fd(),
            final(self)@ == match result {
                Ok(n) => old(self)@.after_transfer(requested as int, n as int),
                Err(e) => old(self)@.after_error(e),
            },
    {
        proof {
            use_type_invariant(&*self);
        }
        if self.outcome.is_some() || self.next >= self.count {
            return ;
        }
        match result {
            Err(e) => {
                self.outcome = Some(Err(e));
            },
            Ok(n) => {
                let total: isize = self.total + (n as isize);
                self.total = total;
                if n < requested {
                    self.outcome = Some(Ok(total));
                } else {
                    self.next = self.next + 1;
                }
            },
        }
    }
}

/// Starts a vectored write of `iocnt` elements to the file indicated by
/// `fd`. A count below 0 or above 1024 is an invalid argument.
pub fn sys_writev(fd: i32, iocnt: i32) -> (result: Result<VectoredIo, IoError>)
    ensures
        !VectoredIo::spec_valid_count(iocnt) ==> result is Err && result->Err_0
            == IoError::InvalidArgument,
        VectoredIo::spec_valid_count(iocnt) ==> result is Ok && result->Ok_0@
            == VectoredProgress::start(iocnt as int) && result->Ok_0.spec_fd() == fd,
{
    VectoredIo::begin(fd, iocnt)
}

/// Starts a vectored read of `iocnt` elements from the file indicated by
/// `fd`. A count below 0 or above 1024 is an invalid argument.
pub fn sys_readv(fd: i32, iocnt: i32) -> (result: Result<VectoredIo, IoError>)
    ensures
        !VectoredIo::spec_valid_count(iocnt) ==> result is Err && result->Err_0
            == IoError::InvalidArgument,
        VectoredIo::spec_valid_count(iocnt) ==> result is Ok && result->Ok_0@
            == VectoredProgress::start(iocnt as int) && result->Ok_0.spec_fd() == fd,
{
    VectoredIo::begin(fd, iocnt)
}

/// A call that is over stays over: further results change nothing.
pub proof fn lemma_finished_is_final(progress: VectoredProgress, results: Seq<(int, int)>)
    requires
        !progress.transferring(),
    ensures
        progress.after_transfers(results) == progress,
    decreases results.len(),
{
    if results.len() > 0 {
        lemma_finished_is_final(progress, results.drop_last());
    }
}

/// While every element moves all of its bytes, the call goes on element by
/// element and the total is the sum of what was moved.
pub proof fn lemma_full_transfers(count: int, results: Seq<(int, int)>)
    requires
        results.len() <= count,
        forall|i: int| 0 <= i < results.len() ==> (#[trigger] results[i]).1 >= results[i].0,
    ensures
        VectoredProgress::start(count).after_transfers(results) == (VectoredProgress {
            count,
            next: results.len() as int,
            total: spec_moved(results, results.len() as int),
            outcome: None,
        }),
    decreases results.len(),
{
    if results.len() > 0 {
        let front = results.drop_last();
        lemma_full_transfers(count, front);
        lemma_moved_prefix(results, front, front.len() as int);
    }
}

/// The sum over the first `n` results depends on those results alone.
pub proof fn lemma_moved_prefix(a: Seq<(int, int)>, b: Seq<(int, int)>, n: int)
    requires
        0 <= n <= a.len(),
        n <= b.len(),
        forall|i: int| 0 <= i < n ==> a[i] == b[i],
    ensures
        spec_moved(a, n) == spec_moved(b, n),
    decreases n,
{
    if n > 0 {
        lemma_moved_prefix(a, b, n - 1);
    }
}

/// The first element that falls short ends the call. If the elements before
/// index `k` moved all of their bytes and element `k` moved fewer than
/// requested, then, however many results are reported after it, the call is
/// over with the sum of what the elements up to `k` moved, and element `k`
/// is the last one that was asked for.
pub proof fn lemma_short_transfer_stops(count: int, results: Seq<(int, int)>, k: int)
    requires
        0 <= k < results.len(),
        k < count,
        forall|i: int| 0 <= i < k ==> (#[trigger] results[i]).1 >= results[i].0,
        results[k].1 < results[k].0,
        isize::MIN <= spec_moved(results, k + 1) <= isize::MAX,
    ensures
        VectoredProgress::start(count).after_transfers(results).step() == VectoredStep::Done(
            Ok(spec_moved(results, k + 1) as isize),
        ),
        VectoredProgress::start(count).after_transfers(results).next == k,
    decreases results.len(),
{
    let start = VectoredProgress::start(count);
    let front = results.drop_last();
    if results.len() == k + 1 {
        lemma_full_transfers(count, front);
        lemma_moved_prefix(results, front, k);
    } else {
        lemma_moved_prefix(results, front, k + 1);
        lemma_short_transfer_stops(count, front, k);
        assert(!start.after_transfers(front).transferring());
    }
}

} // verus!
