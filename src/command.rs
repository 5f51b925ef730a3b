use vstd::prelude::*;
use crate::csvtext::split_on;

verus! {

/// What a command line asks of the solver. Values of the display maximum
/// and of the diffusivity are handed on as text, to be read as numbers by
/// the caller; a value that does not read leaves the setting as it is.
#[derive(Debug, Clone, PartialEq, Eq)]
pub enum Instruction {
    /// Run integration steps on every frame.
    Start,
    /// Stop running integration steps.
    Stop,
    /// Set the top of the display range to this value.
    SetMaxT(Vec<char>),
    /// Set the diffusivity to this value.
    SetKappa(Vec<char>),
    /// Run this many integration steps per batch.
    SetIterations(u32),
    /// Nothing to do.
    Ignored,
}

/// The words of a command line: the pieces between single spaces.
pub open spec fn command_words(line: Seq<char>) -> Seq<Seq<char>> {
    split_on(line, ' ')
}

/// The value of a string of decimal digits.
pub open spec fn digits_value(s: Seq<char>) -> int
    decreases s.len(),
{
    if s.len() == 0 {
        0
    } else {
        digits_value(s.drop_last()) * 10 + (s.last() as int - '0' as int)
    }
}

/// Every character is a decimal digit.
pub open spec fn all_digits(s: Seq<char>) -> bool {
    forall|i: int| 0 <= i < s.len() ==> '0' <= #[trigger] s[i] <= '9'
}

/// An unsigned 32-bit number as Rust reads one: an optional `+`, then one
/// or more decimal digits whose value fits.
pub open spec fn spec_parse_u32(s: Seq<char>) -> Option<u32> {
    let d = if s.len() > 0 && s[0] == '+' {
        s.drop_first()
    } else {
        s
    };
    if d.len() > 0 && all_digits(d) && digits_value(d) <= u32::MAX {
        Some(digits_value(d) as u32)
    } else {
        None
    }
}

/// `r` is the instruction that `line` gives: `start`, `stop`, or `set`
/// followed by `max_T`, `kappa` or `iter_quant` and a value; words past
/// those are not read. Anything else, and `iter_quant` with a value that is
/// not a count, is ignored.
pub open spec fn gives(line: Seq<char>, r: Instruction) -> bool {
    let w = command_words(line);
    if w[0] == seq!['s', 't', 'a', 'r', 't'] {
        r == Instruction::Start
    } else if w[0] == seq!['s', 't', 'o', 'p'] {
        r == Instruction::Stop
    } else if w[0] == seq!['s', 'e', 't'] && w.len() >= 3 {
        if w[1] == seq!['m', 'a', 'x', '_', 'T'] {
            r matches Instruction::SetMaxT(v) && v@ == w[2]
        } else if w[1] == seq!['k', 'a', 'p', 'p', 'a'] {
            r matches Instruction::SetKappa(v) && v@ == w[2]
        } else if w[1] == seq!['i', 't', 'e', 'r', '_', 'q', 'u', 'a', 'n', 't'] {
            r == match spec_parse_u32(w[2]) {
                Some(n) => Instruction::SetIterations(n),
                None => Instruction::Ignored,
            }
        } else {
            r == Instruction::Ignored
        }
    } else {
        r == Instruction::Ignored
    }
}

/// The sequence backwards.
pub open spec fn backwards(s: Seq<Seq<char>>) -> Seq<Seq<char>> {
    Seq::new(s.len(), |i: int| s[s.len() - 1 - i])
}

/// The characters of each piece.
pub open spec fn pieces_view(v: Seq<Vec<char>>) -> Seq<Seq<char>> {
    v.map_values(|p: Vec<char>| p@)
}

/// The first three words of `line`: the first word, then the rest of the
/// words backwards.
fn split_words(line: &Vec<char>) -> (r: (Vec<char>, Vec<Vec<char>>))
    ensures
        command_words(line@) == seq![r.0@] + backwards(pieces_view(r.1@)),
{
    let n = line.len();
    let mut current: Vec<char> = Vec::new();
    let mut rest: Vec<Vec<char>> = Vec::new();
    let mut k: usize = n;
    assert(line@.subrange(n as int, n as int) =~= Seq::<char>::empty());
    assert(seq![current@] + backwards(pieces_view(rest@)) =~= seq![Seq::<char>::empty()]);
    while k > 0
        invariant
            k <= n,
            n == line.len(),
            split_on(line@.subrange(k as int, n as int), ' ') == seq![current@] + backwards(
                pieces_view(rest@),
            ),
        decreases k,
    {
        let c = line[k - 1];
        let ghost before = seq![current@] + backwards(pieces_view(rest@));
        assert(line@.subrange(k - 1, n as int).drop_first() =~= line@.subrange(k as int, n as int));
        assert(line@.subrange(k - 1, n as int)[0] == c);
        if c == ' ' {
            rest.push(current);
            current = Vec::new();
            assert(seq![current@] + backwards(pieces_view(rest@)) =~= seq![Seq::<char>::empty()]
                + before);
        } else {
            let ghost old_cur = current@;
            current.insert(0, c);
            assert(current@ =~= seq![c] + old_cur);
            assert(seq![current@] + backwards(pieces_view(rest@)) =~= before.update(
                0,
                seq![c] + before[0],
            ));
        }
        k = k - 1;
    }
    assert(line@.subrange(0, n as int) =~= line@);
    (current, rest)
}

/// The two character strings are the same.
fn same_chars(a: &Vec<char>, b: &Vec<char>) -> (r: bool)
    ensures
        r == (a@ == b@),
{
    if a.len() != b.len() {
        return false;
    }
    let mut i: usize = 0;
    while i < a.len()
        invariant
            i <= a.len(),
            a.len() == b.len(),
            forall|m: int| 0 <= m < i ==> a@[m] == b@[m],
        decreases a.len() - i,
    {
        if a[i] != b[i] {
            return false;
        }
        i = i + 1;
    }
    assert(a@ =~= b@);
    true
}

proof fn lemma_digits_grow(s: Seq<char>, k: int)
    requires
        all_digits(s),
        0 <= k <= s.len(),
    ensures
        digits_value(s.subrange(0, k)) <= digits_value(s),
        0 <= digits_value(s.subrange(0, k)),
    decreases s.len() - k,
{
    lemma_digits_nonneg(s.subrange(0, k));
    if k < s.len() {
        lemma_digits_grow(s, k + 1);
        let p = s.subrange(0, k + 1);
        assert(p.drop_last() =~= s.subrange(0, k));
        assert('0' <= p.last() <= '9') by {
            assert(p.last() == s[k]);
        }
    } else {
        assert(s.subrange(0, k) =~= s);
    }
}

proof fn lemma_digits_nonneg(s: Seq<char>)
    requires
        all_digits(s),
    ensures
        0 <= digits_value(s),
    decreases s.len(),
{
    if s.len() > 0 {
        let d = s.drop_last();
        assert(all_digits(d)) by {
            assert forall|i: int| 0 <= i < d.len() implies '0' <= #[trigger] d[i] <= '9' by {
                assert(d[i] == s[i]);
            }
        }
        lemma_digits_nonneg(d);
        assert('0' <= s.last() <= '9') by {
            assert(s.last() == s[s.len() - 1]);
        }
    }
}

/// Reads an unsigned 32-bit count as Rust does: an optional `+`, then one
/// or more decimal digits whose value fits.
pub fn parse_count(s: &Vec<char>) -> (r: Option<u32>)
    ensures
        r == spec_parse_u32(s@),
{
    let start: usize = if s.len() > 0 && s[0] == '+' {
        1
    } else {
        0
    };
    let ghost d = if s@.len() > 0 && s@[0] == '+' {
        s@.drop_first()
    } else {
        s@
    };
    assert(d =~= s@.subrange(start as int, s@.len() as int));
    if start == s.len() {
        return None;
    }
    let mut value: u64 = 0;
    let mut i: usize = start;
    while i < s.len()
        invariant
            start <= i <= s.len(),
            d == s@.subrange(start as int, s@.len() as int),
            spec_parse_u32(s@) == (if d.len() > 0 && all_digits(d) && digits_value(d) <= u32::MAX {
                Some(digits_value(d) as u32)
            } else {
                None
            }),
            value <= u32::MAX,
            all_digits(s@.subrange(start as int, i as int)),
            value == digits_value(s@.subrange(start as int, i as int)),
        decreases s.len() - i,
    {
        let c = s[i];
        if c < '0' || c > '9' {
            assert(!all_digits(d)) by {
                assert(d[i - start] == c);
            }
            return None;
        }
        let digit = (c as u32 - '0' as u32) as u64;
        let ghost p = s@.subrange(start as int, i + 1);
        assert(p.drop_last() =~= s@.subrange(start as int, i as int));
        assert(p.last() == c);
        assert(all_digits(p)) by {
            assert forall|m: int| 0 <= m < p.len() implies '0' <= #[trigger] p[m] <= '9' by {
                if m < p.len() - 1 {
                    assert(p[m] == s@.subrange(start as int, i as int)[m]);
                }
            }
        }
        let next = value * 10 + digit;
        if next > u32::MAX as u64 {
            proof {
                assert(all_digits(d) ==> digits_value(d) > u32::MAX) by {
                    if all_digits(d) {
                        lemma_digits_grow(d, i + 1 - start);
                        assert(d.subrange(0, i + 1 - start) =~= p);
                        assert(digits_value(p) == next);
                    }
                }
            }
            return None;
        }
        value = next;
        i = i + 1;
    }
    assert(s@.subrange(start as int, s@.len() as int) == d);
    Some(value as u32)
}

/// The instruction that a command line gives, values included.
pub fn parse_instruction(line: &Vec<char>) -> (r: Instruction)
    ensures
        gives(line@, r),
{
    let (first, rest) = split_words(line);
    let ghost w = command_words(line@);
    assert(w[0] == first@);
    if same_chars(&first, &vec!['s', 't', 'a', 'r', 't']) {
        return Instruction::Start;
    }
    if same_chars(&first, &vec!['s', 't', 'o', 'p']) {
        return Instruction::Stop;
    }
    if !same_chars(&first, &vec!['s', 'e', 't']) || rest.len() < 2 {
        assert(w.len() == rest.len() + 1);
        return Instruction::Ignored;
    }
    let n = rest.len();
    assert(w[1] == rest@[n - 1]@);
    assert(w[2] == rest@[n - 2]@);
    let key = &rest[n - 1];
    let value = &rest[n - 2];
    if same_chars(key, &vec!['m', 'a', 'x', '_', 'T']) {
        Instruction::SetMaxT(value.clone())
    } else if same_chars(key, &vec!['k', 'a', 'p', 'p', 'a']) {
        Instruction::SetKappa(value.clone())
    } else if same_chars(key, &vec!['i', 't', 'e', 'r', '_', 'q', 'u', 'a', 'n', 't']) {
        match parse_count(value) {
            Some(n) => Instruction::SetIterations(n),
            None => Instruction::Ignored,
        }
    } else {
        Instruction::Ignored
    }
}

/// The command line being typed: text is appended key by key, Backspace
/// clears it, Enter hands it over as an instruction and clears it.
pub struct CommandLine {
    line: Vec<char>,
}

impl View for CommandLine {
    type V = Seq<char>;

    closed spec fn view(&self) -> Seq<char> {
        self.line@
    }
}

impl CommandLine {
    /// An empty command line.
    pub fn new() -> (r: Self)
        ensures
            r@ == Seq::<char>::empty(),
    {
        CommandLine { line: Vec::new() }
    }

    /// The text typed so far.
    pub fn text(&self) -> (r: &Vec<char>)
        ensures
            r@ == self@,
    {
        &self.line
    }

    /// Appends the characters of a key press.
    pub fn push_text(&mut self, text: &Vec<char>)
        ensures
            final(self)@ == old(self)@ + text@,
    {
        let mut i: usize = 0;
        let ghost start = self.line@;
        while i < text.len()
            invariant
                i <= text.len(),
                self.line@ == start + text@.subrange(0, i as int),
            decreases text.len() - i,
        {
            self.line.push(text[i]);
            proof {
                assert(text@.subrange(0, i + 1) =~= text@.subrange(0, i as int).push(text@[i as int]));
            }
            i = i + 1;
        }
        assert(text@.subrange(0, text@.len() as int) =~= text@);
    }

    /// Appends a space.
    pub fn push_space(&mut self)
        ensures
            final(self)@ == old(self)@.push(' '),
    {
        self.line.push(' ');
    }

    /// Forgets the text typed so far.
    pub fn clear(&mut self)
        ensures
            final(self)@ == Seq::<char>::empty(),
    {
        self.line = Vec::new();
    }

    /// Hands over the instruction that the typed text gives and clears the
    /// line.
    pub fn enter(&mut self) -> (r: Instruction)
        ensures
            gives(old(self)@, r),
            final(self)@ == Seq::<char>::empty(),
    {
        let r = parse_instruction(&self.line);
        self.line = Vec::new();
        r
    }
}

} // verus!
