use vstd::prelude::*;
use crate::category::{classify, color_of, Color, SyntaxCategory};
use crate::engine::{decode_and_format, decoded_len, ends_short, formatted};
use crate::sink::{fragment_view, FragmentView, Output};
use vstd::slice::slice_subrange;

verus! {

/// The column at which the first operand of every instruction starts.
pub const FIRST_OPERAND_COLUMN: u32 = 8;

/// A colored fragment of an output line as a mathematical value.
pub type SpanView = (Seq<char>, Color);

/// The bit widths that the decoder supports.
pub open spec fn valid_bitness(bitness: u32) -> bool {
    bitness == 16 || bitness == 32 || bitness == 64
}

/// The number of bytes one decode step consumes from a non-empty `code`: the
/// decoder's length, kept between 1 and the bytes left so that decoding always
/// advances and never overruns.
pub open spec fn step_len(code: Seq<u8>, bitness: u32) -> nat {
    clamp_len(decoded_len(code, bitness) as nat, code.len())
}

/// A decoded length `len` kept between 1 and the `left` bytes that remain.
pub open spec fn clamp_len(len: nat, left: nat) -> nat {
    if len == 0 {
        1
    } else if len > left {
        left
    } else {
        len
    }
}

/// Fragments with their colors.
pub open spec fn colored(fragments: Seq<FragmentView>) -> Seq<SpanView> {
    fragments.map_values(|f: FragmentView| (f.0, color_of(f.1)))
}

/// `ip` advanced by `n` bytes, wrapping around the 64-bit address space.
pub open spec fn advance(ip: u64, n: nat) -> u64 {
    ((ip as nat + n) % 0x1_0000_0000_0000_0000nat) as u64
}

/// The decode steps taken on `code` from byte `offset`, whose address is `ip`:
/// the start, length and address of each instruction, in program order. A
/// remainder that ends inside an instruction is dropped.
pub open spec fn steps_from(code: Seq<u8>, offset: nat, ip: u64, bitness: u32) -> Seq<
    (nat, nat, u64),
>
    decreases code.len() - offset,
{
    if offset >= code.len() {
        seq![]
    } else {
        let rest = code.subrange(offset as int, code.len() as int);
        if ends_short(rest, bitness) {
            seq![]
        } else {
            let n = step_len(rest, bitness);
            seq![(offset, n, ip)] + steps_from(code, offset + n, advance(ip, n), bitness)
        }
    }
}

/// The decode steps taken on a whole buffer whose first byte is at `rip`.
pub open spec fn decode_steps(code: Seq<u8>, rip: u64, bitness: u32) -> Seq<(nat, nat, u64)> {
    steps_from(code, 0, rip, bitness)
}

/// The fragments of the instruction that starts `code`, each with its color.
pub open spec fn rendered(code: Seq<u8>, ip: u64, bitness: u32) -> Seq<SpanView> {
    colored(formatted(code, ip, bitness, FIRST_OPERAND_COLUMN))
}

/// The output line of a decode step of `code`.
pub open spec fn line_of(code: Seq<u8>, step: (nat, nat, u64), bitness: u32) -> Seq<SpanView> {
    rendered(code.subrange(step.0 as int, code.len() as int), step.2, bitness)
}

/// The mathematical value of an output line.
pub open spec fn line_view(line: Vec<(String, Color)>) -> Seq<SpanView> {
    line@.map_values(|s: (String, Color)| (s.0@, s.1))
}

/// Colors the fragments held by `sink`, in order.
pub fn color_fragments(sink: &Output) -> (line: Vec<(String, Color)>)
    ensures
        line_view(line) == colored(sink@),
{
    let fragments = sink.drain();
    let mut line: Vec<(String, Color)> = Vec::new();
    let mut i: usize = 0;
    while i < fragments.len()
        invariant
            i <= fragments@.len(),
            fragments@.map_values(|f: (String, SyntaxCategory)| fragment_view(f)) == sink@,
            line_view(line) == sink@.take(i as int).map_values(
                |f: FragmentView| (f.0, color_of(f.1)),
            ),
        decreases fragments@.len() - i,
    {
        assert(sink@[i as int] == fragment_view(fragments@[i as int]));
        let ghost prev = line_view(line);
        let text = fragments[i].0.clone();
        let color = classify(fragments[i].1);
        line.push((text, color));
        assert(line_view(line) =~= prev.push((text@, color)));
        assert(sink@.take(i + 1) =~= sink@.take(i as int).push(sink@[i as int]));
        assert(sink@.take(i + 1).map_values(|f: FragmentView| (f.0, color_of(f.1)))
            =~= sink@.take(i as int).map_values(|f: FragmentView| (f.0, color_of(f.1))).push(
            (sink@[i as int].0, color_of(sink@[i as int].1)),
        ));
        i = i + 1;
    }
    assert(sink@.take(i as int) =~= sink@);
    line
}

/// The number of bytes a decode step consumes, given the decoder's length `len`
/// and the `left` bytes that remain.
pub fn step_length(len: usize, left: usize) -> (n: usize)
    requires
        left >= 1,
    ensures
        n as nat == clamp_len(len as nat, left as nat),
        1 <= n <= left,
{
    if len == 0 {
        1
    } else if len > left {
        left
    } else {
        len
    }
}

/// The outcome of a decode step, given what the decoder reported: the length
/// `len` of the instruction and whether the `left` bytes ended inside it
/// (`short`), with `sink` holding its fragments. `None` where it ended short;
/// else the bytes consumed and the colored line.
pub fn finish_step(len: usize, short: bool, left: usize, sink: &Output) -> (r: Option<
    (usize, Vec<(String, Color)>),
>)
    requires
        left >= 1,
    ensures
        short ==> r is None,
        !short ==> r is Some,
        r matches Some((n, line)) ==> {
            &&& n as nat == clamp_len(len as nat, left as nat)
            &&& line_view(line) == colored(sink@)
        },
{
    if short {
        return None;
    }
    let n = step_length(len, left);
    let line = color_fragments(sink);
    Some((n, line))
}

/// Renders the first instruction of `code`, whose address is `ip`, through `sink`.
/// Returns the number of bytes consumed and the colored line, or `None` where
/// `code` is empty or ends inside its first instruction. The sink is cleared
/// first, so that it then holds this instruction's fragments alone.
pub fn render_step(code: &[u8], ip: u64, bitness: u32, sink: &mut Output) -> (r: Option<
    (usize, Vec<(String, Color)>),
>)
    requires
        valid_bitness(bitness),
    ensures
        code@.len() == 0 ==> r is None && final(sink)@ == old(sink)@,
        code@.len() > 0 ==> {
            &&& final(sink)@ == formatted(code@, ip, bitness, FIRST_OPERAND_COLUMN)
            &&& (r is None <==> ends_short(code@, bitness))
        },
        r matches Some((n, line)) ==> {
            &&& n as nat == step_len(code@, bitness)
            &&& 1 <= n <= code@.len()
            &&& n <= 15
            &&& line_view(line) == rendered(code@, ip, bitness)
        },
{
    if code.len() == 0 {
        return None;
    }
    sink.clear();
    let (len, short) = decode_and_format(code, ip, bitness, FIRST_OPERAND_COLUMN, sink);
    assert(sink@ =~= formatted(code@, ip, bitness, FIRST_OPERAND_COLUMN));
    finish_step(len, short, code.len(), sink)
}

/// The render loop over one buffer: each call of `next_line` decodes, formats and
/// colors the next instruction, so that lines can be written out one by one.
pub struct Renderer<'a> {
    bytes: &'a [u8],
    bitness: u32,
    pos: usize,
    ip: u64,
    finished: bool,
    sink: Output,
    rip: Ghost<u64>,
    emitted: Ghost<Seq<(nat, nat, u64)>>,
}

impl<'a> Renderer<'a> {
    /// The buffer being rendered.
    pub closed spec fn code(&self) -> Seq<u8> {
        self.bytes@
    }

    /// The address of the buffer's first byte.
    pub closed spec fn rip(&self) -> u64 {
        self.rip@
    }

    /// The bit width decoded in.
    pub closed spec fn bitness(&self) -> u32 {
        self.bitness
    }

    /// The decode steps whose lines were handed out, in order.
    pub closed spec fn emitted(&self) -> Seq<(nat, nat, u64)> {
        self.emitted@
    }

    /// What is left to do; every call of `next_line` makes it smaller.
    pub closed spec fn remaining(&self) -> nat {
        if self.finished {
            0
        } else {
            (self.bytes@.len() - self.pos) as nat + 1
        }
    }

    /// The lines handed out are those of the first decode steps of the buffer.
    pub closed spec fn wf(&self) -> bool {
        &&& self.pos <= self.bytes@.len()
        &&& valid_bitness(self.bitness)
        &&& decode_steps(self.bytes@, self.rip@, self.bitness) == self.emitted@ + (if self.finished {
            seq![]
        } else {
            steps_from(self.bytes@, self.pos as nat, self.ip, self.bitness)
        })
        &&& forall|i: int| 0 <= i < self.emitted@.len() ==> #[trigger] self.emitted@[i].1 <= 15
    }

    /// Starts rendering `bytes`, whose first byte is at address `rip`.
    pub fn new(bytes: &'a [u8], rip: u64, bitness: u32) -> (r: Self)
        requires
            valid_bitness(bitness),
        ensures
            r.wf(),
            r.code() == bytes@,
            r.rip() == rip,
            r.bitness() == bitness,
            r.emitted() == Seq::<(nat, nat, u64)>::empty(),
    {
        let ghost nothing: Seq<(nat, nat, u64)> = seq![];
        let r = Renderer {
            bytes,
            bitness,
            pos: 0,
            ip: rip,
            finished: false,
            sink: Output::new(),
            rip: Ghost(rip),
            emitted: Ghost(nothing),
        };
        assert(r.emitted@ + steps_from(bytes@, 0, rip, bitness) =~= steps_from(
            bytes@,
            0,
            rip,
            bitness,
        ));
        r
    }

    /// The line of the next decode step, or `None` once every step was rendered.
    pub fn next_line(&mut self) -> (r: Option<Vec<(String, Color)>>)
        requires
            old(self).wf(),
        ensures
            final(self).wf(),
            final(self).code() == old(self).code(),
            final(self).rip() == old(self).rip(),
            final(self).bitness() == old(self).bitness(),
            r is None <==> old(self).emitted().len() == decode_steps(
                old(self).code(),
                old(self).rip(),
                old(self).bitness(),
            ).len(),
            r is None ==> final(self).emitted() == old(self).emitted() && final(self).emitted()
                == decode_steps(old(self).code(), old(self).rip(), old(self).bitness()),
            r matches Some(line) ==> {
                &&& final(self).emitted().len() == old(self).emitted().len() + 1
                &&& final(self).emitted().take(old(self).emitted().len() as int) == old(
                    self,
                ).emitted()
                &&& line_view(line) == line_of(
                    old(self).code(),
                    final(self).emitted().last(),
                    old(self).bitness(),
                )
                &&& final(self).remaining() < old(self).remaining()
            },
    {
        if self.finished {
            assert(self.emitted@ + seq![] =~= self.emitted@);
            return None;
        }
        let rest = slice_subrange(self.bytes, self.pos, self.bytes.len());
        match render_step(rest, self.ip, self.bitness, &mut self.sink) {
            None => {
                assert(steps_from(self.bytes@, self.pos as nat, self.ip, self.bitness) =~= seq![]);
                assert(self.emitted@ + seq![] =~= self.emitted@);
                self.finished = true;
                None
            },
            Some((n, line)) => {
                let ghost step = (self.pos as nat, n as nat, self.ip);
                let ghost prev = self.emitted@;
                let ghost tail = steps_from(
                    self.bytes@,
                    (self.pos + n) as nat,
                    advance(self.ip, n as nat),
                    self.bitness,
                );
                assert(steps_from(self.bytes@, self.pos as nat, self.ip, self.bitness) == seq![step]
                    + tail);
                assert(prev.push(step) + tail =~= prev + (seq![step] + tail));
                self.emitted = Ghost(prev.push(step));
                assert(self.emitted@.take(prev.len() as int) =~= prev);
                self.pos = self.pos + n;
                self.ip = self.ip.wrapping_add(n as u64);
                Some(line)
            },
        }
    }
}

/// Renders every instruction of `bytes`, whose first byte is at address `rip`:
/// one line per decode step, in program order.
pub fn colorize(bytes: &[u8], rip: u64, bitness: u32) -> (lines: Vec<Vec<(String, Color)>>)
    requires
        valid_bitness(bitness),
    ensures
        bytes@.len() == 0 ==> lines@.len() == 0,
        lines@.len() == decode_steps(bytes@, rip, bitness).len(),
        forall|i: int|
            0 <= i < lines@.len() ==> line_view(#[trigger] lines@[i]) == line_of(
                bytes@,
                decode_steps(bytes@, rip, bitness)[i],
                bitness,
            ),
        forall|i: int|
            0 <= i < decode_steps(bytes@, rip, bitness).len() ==> #[trigger] decode_steps(
                bytes@,
                rip,
                bitness,
            )[i].1 <= 15,
{
    let mut renderer = Renderer::new(bytes, rip, bitness);
    let mut lines: Vec<Vec<(String, Color)>> = Vec::new();
    loop
        invariant
            renderer.wf(),
            renderer.code() == bytes@,
            renderer.rip() == rip,
            renderer.bitness() == bitness,
            lines@.len() == renderer.emitted().len(),
            forall|i: int|
                0 <= i < lines@.len() ==> line_view(#[trigger] lines@[i]) == line_of(
                    bytes@,
                    renderer.emitted()[i],
                    bitness,
                ),
        ensures
            renderer.wf(),
            renderer.emitted() == decode_steps(bytes@, rip, bitness),
            lines@.len() == renderer.emitted().len(),
            forall|i: int|
                0 <= i < lines@.len() ==> line_view(#[trigger] lines@[i]) == line_of(
                    bytes@,
                    renderer.emitted()[i],
                    bitness,
                ),
        decreases renderer.remaining(),
    {
        match renderer.next_line() {
            None => {
                break ;
            },
            Some(line) => {
                let ghost before = lines@;
                lines.push(line);
                assert forall|i: int| 0 <= i < lines@.len() implies line_view(
                    #[trigger] lines@[i],
                ) == line_of(bytes@, renderer.emitted()[i], bitness) by {
                    if i < before.len() {
                        assert(renderer.emitted()[i] == renderer.emitted().take(
                            before.len() as int,
                        )[i]);
                    }
                }
            },
        }
    }
    lines
}

/// The bytes consumed by a sequence of decode steps, together.
pub open spec fn consumed(steps: Seq<(nat, nat, u64)>) -> nat
    decreases steps.len(),
{
    if steps.len() == 0 {
        0
    } else {
        steps[0].1 + consumed(steps.drop_first())
    }
}

proof fn lemma_steps_from_consume(code: Seq<u8>, offset: nat, ip: u64, bitness: u32)
    requires
        offset <= code.len(),
    ensures
        ({
            let s = steps_from(code, offset, ip, bitness);
            &&& offset + consumed(s) <= code.len()
            &&& s.len() > 0 ==> s[0].0 == offset && s[0].2 == ip
            &&& forall|i: int|
                0 <= i < s.len() - 1 ==> #[trigger] s[i + 1].2 == advance(s[i].2, s[i].1)
            &&& s.len() > 0 ==> s.last().0 + s.last().1 == offset + consumed(s)
            &&& forall|i: int| 0 <= i < s.len() ==> #[trigger] s[i].1 >= 1
            &&& forall|i: int| 0 <= i < s.len() - 1 ==> #[trigger] s[i].0 + s[i].1 == s[i + 1].0
        }),
    decreases code.len() - offset,
{
    let s = steps_from(code, offset, ip, bitness);
    if offset < code.len() {
        let rest = code.subrange(offset as int, code.len() as int);
        if !ends_short(rest, bitness) {
            let n = step_len(rest, bitness);
            let t = steps_from(code, offset + n, advance(ip, n), bitness);
            lemma_steps_from_consume(code, offset + n, advance(ip, n), bitness);
            assert(s.drop_first() =~= t);
            if t.len() > 0 {
                assert(s.last() == t.last());
            }
            assert forall|i: int| 0 <= i < s.len() - 1 implies #[trigger] s[i].0 + s[i].1 == s[i
                + 1].0 by {
                if i > 0 {
                    assert(s[i] == t[i - 1]);
                    assert(s[i + 1] == t[i]);
                }
            }
            assert forall|i: int| 0 <= i < s.len() implies #[trigger] s[i].1 >= 1 by {
                if i > 0 {
                    assert(s[i] == t[i - 1]);
                }
            }
            assert forall|i: int| 0 <= i < s.len() - 1 implies #[trigger] s[i + 1].2 == advance(
                s[i].2,
                s[i].1,
            ) by {
                if i > 0 {
                    assert(s[i] == t[i - 1]);
                    assert(s[i + 1] == t[i]);
                }
            }
        }
    }
}

/// Decoding walks the buffer front to back: the first step starts at the first
/// byte, each step consumes at least one byte and starts where the one before it
/// ended, and all steps together consume no more bytes than the buffer holds,
/// the last of them ending where that consumption ends. The first instruction is
/// at `rip`, and each next one at the address after the one before it.
pub proof fn lemma_decode_steps_consume(code: Seq<u8>, rip: u64, bitness: u32)
    ensures
        ({
            let s = decode_steps(code, rip, bitness);
            &&& consumed(s) <= code.len()
            &&& s.len() > 0 ==> s[0].0 == 0 && s[0].2 == rip
            &&& forall|i: int|
                0 <= i < s.len() - 1 ==> #[trigger] s[i + 1].2 == advance(s[i].2, s[i].1)
            &&& s.len() > 0 ==> s.last().0 + s.last().1 == consumed(s)
            &&& forall|i: int| 0 <= i < s.len() ==> #[trigger] s[i].1 >= 1
            &&& forall|i: int| 0 <= i < s.len() - 1 ==> #[trigger] s[i].0 + s[i].1 == s[i + 1].0
        }),
{
    lemma_steps_from_consume(code, 0, rip, bitness);
}

proof fn lemma_steps_from_ignore_ip(code: Seq<u8>, offset: nat, ip1: u64, ip2: u64, bitness: u32)
    ensures
        ({
            let s1 = steps_from(code, offset, ip1, bitness);
            let s2 = steps_from(code, offset, ip2, bitness);
            &&& s1.len() == s2.len()
            &&& forall|i: int|
                0 <= i < s1.len() ==> #[trigger] s1[i].0 == s2[i].0 && s1[i].1 == s2[i].1
        }),
    decreases code.len() - offset,
{
    let s1 = steps_from(code, offset, ip1, bitness);
    let s2 = steps_from(code, offset, ip2, bitness);
    if offset < code.len() {
        let rest = code.subrange(offset as int, code.len() as int);
        if !ends_short(rest, bitness) {
            let n = step_len(rest, bitness);
            let t1 = steps_from(code, offset + n, advance(ip1, n), bitness);
            let t2 = steps_from(code, offset + n, advance(ip2, n), bitness);
            lemma_steps_from_ignore_ip(code, offset + n, advance(ip1, n), advance(ip2, n), bitness);
            assert forall|i: int| 0 <= i < s1.len() implies #[trigger] s1[i].0 == s2[i].0 && s1[i].1
                == s2[i].1 by {
                if i > 0 {
                    assert(s1[i] == t1[i - 1]);
                    assert(s2[i] == t2[i - 1]);
                }
            }
        }
    }
}

/// Where instructions start and how many bytes each takes do not depend on the
/// address of the buffer: only the addresses of the steps do.
pub proof fn lemma_step_lengths_ignore_rip(code: Seq<u8>, rip1: u64, rip2: u64, bitness: u32)
    ensures
        ({
            let s1 = decode_steps(code, rip1, bitness);
            let s2 = decode_steps(code, rip2, bitness);
            &&& s1.len() == s2.len()
            &&& forall|i: int|
                0 <= i < s1.len() ==> #[trigger] s1[i].0 == s2[i].0 && s1[i].1 == s2[i].1
        }),
{
    lemma_steps_from_ignore_ip(code, 0, rip1, rip2, bitness);
}

} // verus!
