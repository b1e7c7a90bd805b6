use vstd::prelude::*;

verus! {

broadcast use vstd::array::group_array_axioms;

/// How a read can fail: a sequential read past the end of the packet, an
/// explicit position or range past the end, or a compression-pointer chain
/// longer than the safety limit.
#[derive(Clone, Copy, Debug, PartialEq, Eq, Structural)]
pub enum DnsError {
    EndOfBuffer,
    OutOfBounds,
    TooManyJumps,
}

/// One DNS message as received on the wire: a fixed 512-byte buffer (one
/// UDP-sized packet, zero-padded by the caller) and the current read
/// position. The buffer is filled once and never changed by the reads;
/// only the position advances.
pub struct BytePacketParser {
    pub buf: [u8; 512],
    pub pos: usize,
}

/// What a bounds-checked single-byte read at position `p` yields, and the
/// position after it: the byte at `p` when `p` is inside the packet,
/// EndOfBuffer with the position unchanged otherwise.
pub open spec fn spec_read_byte(buf: Seq<u8>, p: int) -> (Result<u8, DnsError>, int) {
    if 0 <= p < 512 {
        (Ok(buf[p]), p + 1)
    } else {
        (Err(DnsError::EndOfBuffer), p)
    }
}

/// The byte at an arbitrary position, without moving the cursor.
pub open spec fn spec_get(buf: Seq<u8>, p: int) -> Result<u8, DnsError> {
    if 0 <= p < 512 {
        Ok(buf[p])
    } else {
        Err(DnsError::OutOfBounds)
    }
}

/// The big-endian 16-bit value whose two bytes sit at `p` and `p + 1`.
pub open spec fn u16_be(buf: Seq<u8>, p: int) -> u16 {
    ((buf[p] as u16) << 8) | (buf[p + 1] as u16)
}

/// The big-endian 32-bit value whose four bytes start at `p`.
pub open spec fn u32_be(buf: Seq<u8>, p: int) -> u32 {
    ((buf[p] as u32) << 24) | ((buf[p + 1] as u32) << 16) | ((buf[p + 2] as u32) << 8) | (buf[p
        + 3] as u32)
}

/// What a big-endian 16-bit read at position `p` yields, and the position
/// after it. The two single-byte reads advance as far as they reach, so a
/// failing read from inside the packet leaves the position at 512.
pub open spec fn spec_read_u16(buf: Seq<u8>, p: int) -> (Result<u16, DnsError>, int) {
    if 0 <= p && p + 1 < 512 {
        (Ok(u16_be(buf, p)), p + 2)
    } else if 0 <= p < 512 {
        (Err(DnsError::EndOfBuffer), 512)
    } else {
        (Err(DnsError::EndOfBuffer), p)
    }
}

/// What a big-endian 32-bit read at position `p` yields, and the position
/// after it.
pub open spec fn spec_read_u32(buf: Seq<u8>, p: int) -> (Result<u32, DnsError>, int) {
    if 0 <= p && p + 3 < 512 {
        (Ok(u32_be(buf, p)), p + 4)
    } else if 0 <= p < 512 {
        (Err(DnsError::EndOfBuffer), 512)
    } else {
        (Err(DnsError::EndOfBuffer), p)
    }
}

/// How one raw label byte appears in the decoded name: ASCII capital
/// letters are folded to lower case, other ASCII bytes stand as
/// themselves, and bytes outside ASCII are replaced with U+FFFD.
pub open spec fn lower_char(b: u8) -> char {
    if b >= 128 {
        '\u{FFFD}'
    } else if 65 <= b && b <= 90 {
        ((b + 32) as u8) as char
    } else {
        b as char
    }
}

/// The characters of one label: the `len` bytes starting at `p`, each
/// mapped through `lower_char`.
pub open spec fn label_chars(buf: Seq<u8>, p: int, len: int) -> Seq<char> {
    Seq::new(len as nat, |i: int| lower_char(buf[p + i]))
}

/// The outcome of name decompression from a given state: how it failed if
/// it failed, the characters it appends to the output, and the stream
/// position the cursor is left at.
pub struct QnameOutcome {
    pub err: Option<DnsError>,
    pub name: Seq<char>,
    pub end_pos: int,
}

/// One complete run of the decompression loop of `read_qname`, mirrored in
/// spec. `p` is the local trace position, `stream` the position the stream
/// cursor currently stands at, `jumped` whether a pointer was already
/// followed, `jumps` how many pointers were followed, `acc` the characters
/// appended so far and `seen_label` whether a non-empty label was already
/// appended (which decides the separating dot).
///
/// The jump budget bounds the recursion, and between jumps the trace
/// position grows strictly inside the 512-byte window, so decompression
/// always terminates.
pub open spec fn qname_step(
    buf: Seq<u8>,
    p: int,
    stream: int,
    jumped: bool,
    jumps: int,
    acc: Seq<char>,
    seen_label: bool,
) -> QnameOutcome
    decreases 6 - jumps, (if 0 <= p < 512 { 512 - p } else { 0 }),
{
    if jumps > 5 {
        QnameOutcome { err: Some(DnsError::TooManyJumps), name: acc, end_pos: stream }
    } else if !(0 <= p < 512) {
        QnameOutcome { err: Some(DnsError::OutOfBounds), name: acc, end_pos: stream }
    } else {
        let len = buf[p];
        if len & 0xC0 == 0xC0 {
            // a compression pointer; the first one fixes where the stream resumes
            let stream2 = if !jumped {
                p + 2
            } else {
                stream
            };
            if !(0 <= p + 1 < 512) {
                QnameOutcome { err: Some(DnsError::OutOfBounds), name: acc, end_pos: stream2 }
            } else {
                let target = ((((len as u16) ^ 0xC0) << 8) | (buf[p + 1] as u16)) as int;
                qname_step(buf, target, stream2, true, jumps + 1, acc, seen_label)
            }
        } else if len == 0 {
            // terminating empty label
            QnameOutcome {
                err: None,
                name: acc,
                end_pos: if jumped {
                    stream
                } else {
                    p + 1
                },
            }
        } else {
            // an ordinary label of `len` bytes after the length byte
            let acc1 = if seen_label {
                acc + seq!['.']
            } else {
                acc
            };
            if p + 1 + len >= 512 {
                QnameOutcome { err: Some(DnsError::OutOfBounds), name: acc1, end_pos: stream }
            } else {
                let acc2 = acc1 + label_chars(buf, p + 1, len as int);
                qname_step(buf, p + 1 + len, stream, jumped, jumps, acc2, true)
            }
        }
    }
}

/// Running name decompression from position `p` on a fresh state.
pub open spec fn spec_qname(buf: Seq<u8>, p: int) -> QnameOutcome {
    qname_step(buf, p, p, false, 0, Seq::empty(), false)
}

/// A plain, pointer-free label sequence at position `p`: length-prefixed
/// labels whose length bytes have the top two bits clear, every label
/// fully inside the range `get_range` accepts, ending in an empty label.
pub open spec fn plain_labels(buf: Seq<u8>, p: int) -> bool
    decreases (if 0 <= p < 512 { 512 - p } else { 0 }),
{
    if !(0 <= p < 512) {
        false
    } else {
        let len = buf[p];
        if len & 0xC0 == 0xC0 {
            false
        } else if len == 0 {
            true
        } else if p + 1 + len >= 512 {
            false
        } else {
            plain_labels(buf, p + 1 + len)
        }
    }
}

/// The characters a plain label sequence at `p` contributes to the decoded
/// name, given whether a label was already written before it (which
/// decides the leading dot).
pub open spec fn plain_label_text(buf: Seq<u8>, p: int, seen_label: bool) -> Seq<char>
    decreases (if 0 <= p < 512 { 512 - p } else { 0 }),
{
    if !(0 <= p < 512) {
        Seq::empty()
    } else {
        let len = buf[p];
        if len & 0xC0 == 0xC0 {
            Seq::empty()
        } else if len == 0 {
            Seq::empty()
        } else if p + 1 + len >= 512 {
            Seq::empty()
        } else {
            let here = if seen_label {
                seq!['.'] + label_chars(buf, p + 1, len as int)
            } else {
                label_chars(buf, p + 1, len as int)
            };
            here + plain_label_text(buf, p + 1 + len, true)
        }
    }
}

/// The position just past the terminating empty label of a plain label
/// sequence at `p`.
pub open spec fn plain_labels_end(buf: Seq<u8>, p: int) -> int
    decreases (if 0 <= p < 512 { 512 - p } else { 0 }),
{
    if !(0 <= p < 512) {
        p
    } else {
        let len = buf[p];
        if len & 0xC0 == 0xC0 {
            p
        } else if len == 0 {
            p + 1
        } else if p + 1 + len >= 512 {
            p
        } else {
            plain_labels_end(buf, p + 1 + len)
        }
    }
}

/// Tracing a plain label sequence succeeds from any loop state whose jump
/// budget is not yet exhausted, appends exactly its text, and ends at the
/// stream position when a jump already occurred, else just past the
/// terminating empty label.
proof fn lemma_plain_labels_run(
    buf: Seq<u8>,
    p: int,
    stream: int,
    jumped: bool,
    jumps: int,
    acc: Seq<char>,
    seen_label: bool,
)
    requires
        plain_labels(buf, p),
        0 <= jumps <= 5,
    ensures
        qname_step(buf, p, stream, jumped, jumps, acc, seen_label) == (QnameOutcome {
            err: None,
            name: acc + plain_label_text(buf, p, seen_label),
            end_pos: if jumped {
                stream
            } else {
                plain_labels_end(buf, p)
            },
        }),
    decreases 512 - p,
{
    let len = buf[p];
    if len == 0 {
        assert(acc + plain_label_text(buf, p, seen_label) =~= acc);
    } else {
        let acc1 = if seen_label {
            acc + seq!['.']
        } else {
            acc
        };
        let lbl = label_chars(buf, p + 1, len as int);
        lemma_plain_labels_run(buf, p + 1 + len, stream, jumped, jumps, acc1 + lbl, true);
        let here = if seen_label {
            seq!['.'] + lbl
        } else {
            lbl
        };
        assert((acc1 + lbl) + plain_label_text(buf, p + 1 + len, true) =~= acc + (here
            + plain_label_text(buf, p + 1 + len, true)));
    }
}

/// Law: a name read through a compression pointer is the very name read at
/// the pointer's target, and the cursor resumes just past the 2-byte
/// pointer. `y` holds the pointer, `x` its 14-bit target, where a plain
/// label sequence stands.
pub proof fn lemma_pointer_reads_target(buf: Seq<u8>, y: int, x: int)
    requires
        0 <= y,
        y + 1 < 512,
        buf[y] & 0xC0 == 0xC0,
        x == ((((buf[y] as u16) ^ 0xC0) << 8) | (buf[y + 1] as u16)) as int,
        plain_labels(buf, x),
    ensures
        spec_qname(buf, y).err is None,
        spec_qname(buf, x).err is None,
        spec_qname(buf, y).name == spec_qname(buf, x).name,
        spec_qname(buf, y).end_pos == y + 2,
{
    assert(spec_qname(buf, y) == qname_step(buf, x, y + 2, true, 1, Seq::empty(), false));
    lemma_plain_labels_run(buf, x, y + 2, true, 1, Seq::empty(), false);
    lemma_plain_labels_run(buf, x, x, false, 0, Seq::empty(), false);
}

/// Tracing from any position of a set of pointers that only point back
/// into the set exhausts the jump budget, whatever the state.
proof fn lemma_cycle_steps(
    buf: Seq<u8>,
    cycle: Set<int>,
    p: int,
    stream: int,
    jumped: bool,
    jumps: int,
    acc: Seq<char>,
    seen_label: bool,
)
    requires
        cycle.contains(p),
        0 <= jumps <= 6,
        forall|q: int| #[trigger]
            cycle.contains(q) ==> 0 <= q && q + 1 < 512 && buf[q] & 0xC0 == 0xC0
                && cycle.contains(((((buf[q] as u16) ^ 0xC0) << 8) | (buf[q + 1] as u16)) as int),
    ensures
        qname_step(buf, p, stream, jumped, jumps, acc, seen_label).err == Some(
            DnsError::TooManyJumps,
        ),
    decreases 6 - jumps,
{
    if jumps <= 5 {
        let target = ((((buf[p] as u16) ^ 0xC0) << 8) | (buf[p + 1] as u16)) as int;
        let stream2 = if !jumped {
            p + 2
        } else {
            stream
        };
        lemma_cycle_steps(buf, cycle, target, stream2, true, jumps + 1, acc, seen_label);
    }
}

/// Law: a pointer chain that points back into itself — directly or through
/// any cycle of positions whose pointers stay inside the cycle — makes
/// name decompression fail with TooManyJumps. Decompression itself always
/// terminates (`qname_step` and the loop of `read_qname` carry decreases
/// measures), so such a packet is rejected in a bounded number of steps.
pub proof fn lemma_pointer_cycle_rejected(buf: Seq<u8>, cycle: Set<int>, y: int)
    requires
        cycle.contains(y),
        forall|q: int| #[trigger]
            cycle.contains(q) ==> 0 <= q && q + 1 < 512 && buf[q] & 0xC0 == 0xC0
                && cycle.contains(((((buf[q] as u16) ^ 0xC0) << 8) | (buf[q + 1] as u16)) as int),
    ensures
        spec_qname(buf, y).err == Some(DnsError::TooManyJumps),
{
    lemma_cycle_steps(buf, cycle, y, y, false, 0, Seq::empty(), false);
}

/// Relies on String::push: it appends exactly the one given character.
#[verifier::external_body]
fn push_char(s: &mut String, c: char)
    ensures
        final(s)@ == old(s)@ + seq![c],
{
    s.push(c);
}

/// The decoded form of one raw label byte, as `lower_char` describes it.
fn lower_byte_char(b: u8) -> (c: char)
    ensures
        c == lower_char(b),
{
    if b >= 128 {
        '\u{FFFD}'
    } else if 65 <= b && b <= 90 {
        (b + 32) as char
    } else {
        b as char
    }
}

impl BytePacketParser {
    /// A fresh parser: zeroed buffer, position at the start. The caller
    /// copies the received datagram into `buf`; short reads stay padded
    /// with zeroes.
    pub fn new() -> (r: BytePacketParser)
        ensures
            r.buf@ == Seq::new(512, |i: int| 0u8),
            r.pos == 0,
    {
        BytePacketParser { buf: [0; 512], pos: 0 }
    }

    /// The current read position.
    pub fn pos(&self) -> (r: usize)
        ensures
            r == self.pos,
    {
        self.pos
    }

    /// Move the read position forward by `steps`. No bounds check is done
    /// here; bounds are enforced on the actual reads.
    pub fn step(&mut self, steps: usize) -> (r: Result<(), DnsError>)
        requires
            old(self).pos + steps <= usize::MAX,
        ensures
            final(self).buf@ == old(self).buf@,
            final(self).pos == old(self).pos + steps,
            r == Ok::<(), DnsError>(()),
    {
        self.pos = self.pos + steps;
        Ok(())
    }

    /// Move the read position to `pos`. No bounds check is done here;
    /// bounds are enforced on the actual reads.
    pub fn seek(&mut self, pos: usize) -> (r: Result<(), DnsError>)
        ensures
            final(self).buf@ == old(self).buf@,
            final(self).pos == pos,
            r == Ok::<(), DnsError>(()),
    {
        self.pos = pos;
        Ok(())
    }

    /// Read the byte at the current position and advance past it.
    pub fn read(&mut self) -> (r: Result<u8, DnsError>)
        ensures
            final(self).buf@ == old(self).buf@,
            (r, final(self).pos as int) == spec_read_byte(old(self).buf@, old(self).pos as int),
    {
        if self.pos >= 512 {
            return Err(DnsError::EndOfBuffer);
        }
        let res = self.buf[self.pos];
        self.pos = self.pos + 1;
        Ok(res)
    }

    /// Read the byte at an arbitrary position without moving the cursor.
    pub fn get(&mut self, pos: usize) -> (r: Result<u8, DnsError>)
        ensures
            final(self).buf@ == old(self).buf@,
            final(self).pos == old(self).pos,
            r == spec_get(old(self).buf@, pos as int),
    {
        if pos >= 512 {
            return Err(DnsError::OutOfBounds);
        }
        Ok(self.buf[pos])
    }

    /// A read-only view of `len` bytes starting at `start`, without moving
    /// the cursor. A range whose end reaches position 511 or beyond is
    /// rejected, so the very last byte of the packet is never part of a
    /// range.
    pub fn get_range(&mut self, start: usize, len: usize) -> (r: Result<&[u8], DnsError>)
        ensures
            final(self).buf@ == old(self).buf@,
            final(self).pos == old(self).pos,
            match r {
                Ok(s) => start + len < 512 && s@ == old(self).buf@.subrange(
                    start as int,
                    start + len,
                ),
                Err(e) => start + len >= 512 && e == DnsError::OutOfBounds,
            },
    {
        if start >= 512 || len >= 512 || start + len >= 512 {
            return Err(DnsError::OutOfBounds);
        }
        Ok(vstd::slice::slice_subrange(self.buf.as_slice(), start, start + len))
    }

    /// Read a big-endian 16-bit value (packet ids, record types, counts).
    pub fn read_u16(&mut self) -> (r: Result<u16, DnsError>)
        ensures
            final(self).buf@ == old(self).buf@,
            (r, final(self).pos as int) == spec_read_u16(old(self).buf@, old(self).pos as int),
    {
        let hi = self.read()?;
        let lo = self.read()?;
        Ok(((hi as u16) << 8) | (lo as u16))
    }

    /// Read a big-endian 32-bit value (time-to-live fields, raw IPv4
    /// addresses).
    pub fn read_u32(&mut self) -> (r: Result<u32, DnsError>)
        ensures
            final(self).buf@ == old(self).buf@,
            (r, final(self).pos as int) == spec_read_u32(old(self).buf@, old(self).pos as int),
    {
        let b0 = self.read()?;
        let b1 = self.read()?;
        let b2 = self.read()?;
        let b3 = self.read()?;
        Ok(((b0 as u32) << 24) | ((b1 as u32) << 16) | ((b2 as u32) << 8) | (b3 as u32))
    }

    /// Decode a (possibly compressed) domain name starting at the current
    /// position, appending its lowercase dot-separated labels to `outstr`.
    ///
    /// The name is traced with a local position so that a pointer may jump
    /// backward into bytes the stream has already passed; the stream's own
    /// position is left just after the name as the caller saw it on the
    /// wire: after the terminating empty label when no pointer occurred,
    /// after the first 2-byte pointer otherwise. At most 5 pointers are
    /// followed, so a cyclic or adversarial chain fails with TooManyJumps
    /// instead of looping.
    #[verifier::loop_isolation(false)]
    pub fn read_qname(&mut self, outstr: &mut String) -> (r: Result<(), DnsError>)
        ensures
            final(self).buf@ == old(self).buf@,
            ({
                let o = spec_qname(old(self).buf@, old(self).pos as int);
                final(self).pos as int == o.end_pos && final(outstr)@ == old(outstr)@ + o.name
                    && (match r {
                    Ok(_) => o.err is None,
                    Err(e) => o.err == Some(e),
                })
            }),
    {
        let ghost buf0 = self.buf@;
        let ghost start = self.pos as int;
        let ghost total = spec_qname(buf0, start);
        let ghost out0 = outstr@;

        let mut pos: usize = self.pos();
        let mut jumped: bool = false;
        let max_jumps: usize = 5;
        let mut jumps_performed: usize = 0;
        let mut wrote_label: bool = false;
        let ghost mut acc: Seq<char> = Seq::empty();

        proof {
            assert(out0 + acc =~= out0);
        }

        loop
            invariant
                self.buf@ == buf0,
                outstr@ == out0 + acc,
                jumps_performed <= 6,
                qname_step(
                    buf0,
                    pos as int,
                    self.pos as int,
                    jumped,
                    jumps_performed as int,
                    acc,
                    wrote_label,
                ) == total,
            decreases 6 - jumps_performed as int, (if (pos as int) < 512 {
                512 - pos as int
            } else {
                0
            }),
        {
            let ghost pos0 = pos as int;
            let ghost stream0 = self.pos as int;
            let ghost jumped0 = jumped;
            let ghost jumps0 = jumps_performed as int;
            let ghost acc0 = acc;
            let ghost wrote0 = wrote_label;

            if jumps_performed > max_jumps {
                return Err(DnsError::TooManyJumps);
            }
            let len = match self.get(pos) {
                Ok(v) => v,
                Err(e) => {
                    return Err(e);
                },
            };
            if (len & 0xC0) == 0xC0 {
                // a pointer: fix the stream just past it the first time,
                // then continue tracing at the 14-bit target offset
                if !jumped {
                    self.seek(pos + 2)?;
                }
                let b2 = match self.get(pos + 1) {
                    Ok(v) => v,
                    Err(e) => {
                        return Err(e);
                    },
                };
                let offset = (((len as u16) ^ 0xC0) << 8) | (b2 as u16);
                pos = offset as usize;
                jumped = true;
                jumps_performed = jumps_performed + 1;
                proof {
                    assert(qname_step(buf0, pos0, stream0, jumped0, jumps0, acc, wrote0)
                        == qname_step(
                        buf0,
                        pos as int,
                        self.pos as int,
                        jumped,
                        jumps_performed as int,
                        acc,
                        wrote_label,
                    ));
                }
            } else {
                // an ordinary label: move past the length byte
                pos = pos + 1;
                if len == 0 {
                    if !jumped {
                        self.seek(pos)?;
                    }
                    return Ok(());
                }
                if wrote_label {
                    push_char(outstr, '.');
                    proof {
                        acc = acc + seq!['.'];
                        assert(outstr@ =~= out0 + acc);
                    }
                }
                let ghost acc1 = acc;
                let lbl = match self.get_range(pos, len as usize) {
                    Ok(v) => v,
                    Err(e) => {
                        return Err(e);
                    },
                };
                let mut i: usize = 0;
                proof {
                    assert(out0 + acc1 + label_chars(buf0, pos as int, 0) =~= out0 + acc1);
                }
                while i < len as usize
                    invariant
                        i <= len,
                        lbl@ == buf0.subrange(pos0 + 1, pos0 + 1 + len as int),
                        pos as int == pos0 + 1,
                        outstr@ == out0 + acc1 + label_chars(buf0, pos0 + 1, i as int),
                    decreases len as int - i,
                {
                    let c = lower_byte_char(lbl[i]);
                    push_char(outstr, c);
                    proof {
                        assert(lbl@[i as int] == buf0[pos0 + 1 + i]);
                        assert(out0 + acc1 + label_chars(buf0, pos0 + 1, i as int) + seq![c]
                            =~= out0 + acc1 + label_chars(buf0, pos0 + 1, i + 1));
                    }
                    i = i + 1;
                }
                proof {
                    acc = acc1 + label_chars(buf0, pos0 + 1, len as int);
                    assert(outstr@ =~= out0 + acc);
                }
                wrote_label = true;
                pos = pos + len as usize;
                proof {
                    assert(qname_step(buf0, pos0, stream0, jumped0, jumps0, acc0, wrote0)
                        == qname_step(
                        buf0,
                        pos as int,
                        self.pos as int,
                        jumped,
                        jumps_performed as int,
                        acc,
                        wrote_label,
                    ));
                }
            }
        }
    }
}

} // verus!
