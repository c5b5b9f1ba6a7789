//! Byte handling of the device transports: the bytes a BLE notification
//! delivered beyond what a read could take, the chunks an AP frame is
//! written in over BLE, the end of a line read from a serial port, and
//! whether another process holds a serial port.

use std::collections::VecDeque;

use vstd::prelude::*;
use vstd::seq_lib::*;
use vstd::string::*;

use crate::error::AttentioError;
use crate::text::{chars_of, string_from_chars};

verus! {

/// Bytes received but not yet read, oldest first.
pub struct RxBuffer {
    leftover: VecDeque<u8>,
}

impl View for RxBuffer {
    type V = Seq<u8>;

    closed spec fn view(&self) -> Seq<u8> {
        self.leftover@
    }
}

impl RxBuffer {
    /// An empty buffer.
    pub fn new() -> (b: Self)
        ensures
            b@ == Seq::<u8>::empty(),
    {
        RxBuffer { leftover: VecDeque::new() }
    }

    /// Whether no bytes are waiting.
    pub fn is_empty(&self) -> (r: bool)
        ensures
            r == (self@.len() == 0),
    {
        self.leftover.len() == 0
    }

    /// Appends a received chunk after the waiting bytes.
    pub fn refill(&mut self, chunk: Vec<u8>)
        ensures
            final(self)@ == old(self)@ + chunk@,
    {
        let mut i: usize = 0;
        let ghost start = self@;
        while i < chunk.len()
            invariant
                i <= chunk@.len(),
                self@ == start + chunk@.take(i as int),
            decreases chunk@.len() - i,
        {
            self.leftover.push_back(chunk[i]);
            i = i + 1;
            proof {
                assert(chunk@.take(i as int) =~= chunk@.take(i - 1).push(chunk@[i - 1]));
                assert(start + chunk@.take(i as int) =~= (start + chunk@.take(i - 1)).push(
                    chunk@[i - 1],
                ));
            }
        }
        proof {
            assert(chunk@.take(chunk@.len() as int) =~= chunk@);
        }
    }

    /// Takes up to `max` of the oldest waiting bytes.
    pub fn take(&mut self, max: usize) -> (r: Vec<u8>)
        ensures
            r@.len() == (if old(self)@.len() < max {
                old(self)@.len()
            } else {
                max as nat
            }),
            r@ == old(self)@.take(r@.len() as int),
            final(self)@ == old(self)@.skip(r@.len() as int),
    {
        let n = if self.leftover.len() < max {
            self.leftover.len()
        } else {
            max
        };
        let ghost start = self@;
        let mut out: Vec<u8> = Vec::new();
        let mut i: usize = 0;
        while i < n
            invariant
                n <= start.len(),
                i <= n,
                out@ == start.take(i as int),
                self@ == start.skip(i as int),
            decreases n - i,
        {
            match self.leftover.pop_front() {
                Some(b) => {
                    out.push(b);
                },
                None => {},
            }
            i = i + 1;
            proof {
                assert(out@ =~= start.take(i as int));
                assert(self@ =~= start.skip(i as int));
            }
        }
        out
    }
}

/// Taking `a` bytes and then `b` more yields the first `a + b` bytes, in
/// order: reads neither lose, repeat nor reorder what was received.
pub proof fn lemma_takes_concatenate(s: Seq<u8>, a: nat, b: nat)
    requires
        a + b <= s.len(),
    ensures
        s.take(a as int) + s.skip(a as int).take(b as int) == s.take((a + b) as int),
{
    assert(s.take(a as int) + s.skip(a as int).take(b as int) =~= s.take((a + b) as int));
}

// ── Chunked writes ───────────────────────────────────────────────────────────

/// The chunk size used for a configured size (at least one byte).
pub open spec fn effective_chunk(n: usize) -> nat {
    if n == 0 {
        1
    } else {
        n as nat
    }
}

/// The byte contents of each chunk.
pub open spec fn chunks_view(v: Seq<Vec<u8>>) -> Seq<Seq<u8>> {
    v.map_values(|c: Vec<u8>| c@)
}

/// Splits an AP frame into the chunks written to the TX characteristic:
/// consecutive pieces of `chunk_size` bytes (at least one), the last
/// possibly shorter.
pub fn tx_chunks(data: &[u8], chunk_size: usize) -> (r: Vec<Vec<u8>>)
    ensures
        chunks_view(r@).flatten() == data@,
        forall|i: int| 0 <= i < r@.len() ==> 0 < (#[trigger] r@[i])@.len() <= effective_chunk(chunk_size),
        forall|i: int| 0 <= i < r@.len() - 1 ==> (#[trigger] r@[i])@.len() == effective_chunk(chunk_size),
{
    let size = if chunk_size == 0 {
        1
    } else {
        chunk_size
    };
    let mut out: Vec<Vec<u8>> = Vec::new();
    let mut pos: usize = 0;
    proof {
        assert(chunks_view(out@) =~= Seq::<Seq<u8>>::empty());
        assert(data@.take(0) =~= Seq::<u8>::empty());
    }
    while pos < data.len()
        invariant
            size == effective_chunk(chunk_size),
            pos <= data@.len(),
            chunks_view(out@).flatten() == data@.take(pos as int),
            forall|i: int| 0 <= i < out@.len() ==> (#[trigger] out@[i])@.len() == size,
        decreases data@.len() - pos,
    {
        let end = if data.len() - pos < size {
            data.len()
        } else {
            pos + size
        };
        let mut chunk: Vec<u8> = Vec::new();
        let mut k = pos;
        while k < end
            invariant
                pos <= k <= end,
                end <= data@.len(),
                chunk@ == data@.subrange(pos as int, k as int),
            decreases end - k,
        {
            chunk.push(data[k]);
            k = k + 1;
            proof {
                assert(chunk@ =~= data@.subrange(pos as int, k as int));
            }
        }
        let ghost before = out@;
        out.push(chunk);
        proof {
            assert(chunks_view(out@) =~= chunks_view(before) + seq![data@.subrange(pos as int, end as int)]);
            lemma_flatten_concat(chunks_view(before), seq![data@.subrange(pos as int, end as int)]);
            seq![data@.subrange(pos as int, end as int)].lemma_flatten_one_element();
            assert(data@.take(pos as int) + data@.subrange(pos as int, end as int) =~= data@.take(
                end as int,
            ));
        }
        if end - pos < size {
            pos = end;
            proof {
                assert(pos == data@.len());
                assert(data@.take(pos as int) =~= data@);
            }
            return out;
        }
        pos = end;
    }
    proof {
        assert(data@.take(pos as int) =~= data@);
    }
    out
}

// ── Lines read from a serial port ────────────────────────────────────────────

/// The line without its trailing '\r' and '\n' characters.
pub open spec fn strip_line_end(s: Seq<char>) -> Seq<char>
    decreases s.len(),
{
    if s.len() > 0 && (s.last() == '\r' || s.last() == '\n') {
        strip_line_end(s.drop_last())
    } else {
        s
    }
}

/// Removes every trailing '\r' and '\n' of a line (`trim_end_matches`).
pub fn trim_line_end(line: &str) -> (r: String)
    ensures
        r@ == strip_line_end(line@),
{
    let cs = chars_of(line);
    let mut end = cs.len();
    proof {
        assert(cs@.take(end as int) =~= cs@);
    }
    while end > 0 && (cs[end - 1] == '\r' || cs[end - 1] == '\n')
        invariant
            end <= cs@.len(),
            cs@ == line@,
            strip_line_end(line@) == strip_line_end(cs@.take(end as int)),
        decreases end,
    {
        proof {
            assert(cs@.take(end as int).drop_last() =~= cs@.take(end - 1));
        }
        end = end - 1;
    }
    let mut kept: Vec<char> = Vec::new();
    let mut i: usize = 0;
    while i < end
        invariant
            end <= cs@.len(),
            i <= end,
            kept@ == cs@.take(i as int),
        decreases end - i,
    {
        kept.push(cs[i]);
        i = i + 1;
        proof {
            assert(kept@ =~= cs@.take(i as int));
        }
    }
    string_from_chars(kept.as_slice())
}

// ── Busy ports ───────────────────────────────────────────────────────────────

/// Some other process has an open file on the port's device number.
pub open spec fn held_by_other(target_rdev: u64, my_pid: u32, fds: Seq<(u32, u64)>) -> bool {
    exists|i: int| 0 <= i < fds.len() && (#[trigger] fds[i]).0 != my_pid && fds[i].1 == target_rdev
}

/// Decides whether a serial port is busy from the open files of the
/// processes on the host, each given as (process ID, device number of the
/// file). The port is busy when its device number is known (not 0) and a
/// process other than this one has a file open on it; then the error names
/// the port.
pub fn check_port_busy(port: &str, target_rdev: u64, my_pid: u32, fds: &[(u32, u64)]) -> (r: Result<(), AttentioError>)
    ensures
        (target_rdev != 0 && held_by_other(target_rdev, my_pid, fds@)) ==> (r matches Err(
            AttentioError::PortBusy { port: p },
        ) && p@ == port@),
        !(target_rdev != 0 && held_by_other(target_rdev, my_pid, fds@)) ==> r is Ok,
{
    if target_rdev == 0 {
        return Ok(());
    }
    let mut i: usize = 0;
    while i < fds.len()
        invariant
            target_rdev != 0,
            i <= fds@.len(),
            forall|m: int| 0 <= m < i ==> !((#[trigger] fds@[m]).0 != my_pid && fds@[m].1 == target_rdev),
        decreases fds@.len() - i,
    {
        let (pid, rdev) = fds[i];
        if pid != my_pid && rdev == target_rdev {
            assert(fds@[i as int] == (pid, rdev));
            return Err(AttentioError::PortBusy { port: port.to_owned() });
        }
        i = i + 1;
    }
    Ok(())
}

} // verus!
