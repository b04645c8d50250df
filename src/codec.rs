use vstd::prelude::*;

verus! {

/// Most bytes of a 32-bit variable-length integer.
pub const VAR_INT_MAX_BYTES: usize = 5;

/// Most bytes of a 64-bit variable-length integer.
pub const VAR_LONG_MAX_BYTES: usize = 10;

/// Why reading a value from a byte buffer failed.
#[derive(Debug, Clone, Copy, PartialEq, Eq, Structural)]
pub enum DeserializerError {
    /// The buffer ended before the value did.
    Incomplete,
    /// A variable-length integer kept its continuation bit past its longest form.
    VarIntTooBig,
    /// A string's declared length is negative or over the caller's cap.
    StringTooLong,
    /// A string's bytes are not UTF-8.
    InvalidUtf8,
}

/// Outcome of scanning for the end of a variable-length integer.
pub ghost enum VarScan {
    /// The integer takes this many bytes.
    Done(nat),
    Incomplete,
    TooLong,
}

/// Scans `s` from byte `i` for the first byte without its continuation bit, within `max` bytes.
pub open spec fn var_scan_from(s: Seq<u8>, max: nat, i: nat) -> VarScan
    decreases max - i,
{
    if i >= max {
        VarScan::TooLong
    } else if i >= s.len() {
        VarScan::Incomplete
    } else if s[i as int] < 128 {
        VarScan::Done(i + 1)
    } else {
        var_scan_from(s, max, i + 1)
    }
}

/// Sum of the low seven bits of the first `n` bytes, least significant group first.
pub open spec fn var_groups(s: Seq<u8>, n: nat) -> int
    decreases n,
{
    if n == 0 {
        0
    } else {
        var_groups(s, (n - 1) as nat) + (s[n - 1] % 128) as int * group_weight((n - 1) as nat)
    }
}

/// Weight of the `n`-th group of seven bits: 128 to the power `n`.
pub open spec fn group_weight(n: nat) -> nat
    decreases n,
{
    if n == 0 {
        1
    } else {
        128 * group_weight((n - 1) as nat)
    }
}

proof fn lemma_weight_grows(i: nat, j: nat)
    requires
        i <= j,
    ensures
        group_weight(i) <= group_weight(j),
    decreases j - i,
{
    if i < j {
        lemma_weight_grows(i, (j - 1) as nat);
    }
}

/// A 32-bit variable-length integer of `n` bytes: its groups, truncated to 32 bits.
pub open spec fn var_int_value(s: Seq<u8>, n: nat) -> i32 {
    (var_groups(s, n) as u32) as i32
}

/// A 64-bit variable-length integer of `n` bytes: its groups, truncated to 64 bits.
pub open spec fn var_long_value(s: Seq<u8>, n: nat) -> i64 {
    (var_groups(s, n) as u64) as i64
}

/// The low seven bits of `v`'s successive groups, each byte but the last with its continuation bit.
pub open spec fn var_encoding(v: u64) -> Seq<u8>
    decreases v,
{
    if v < 128 {
        seq![v as u8]
    } else {
        seq![(v % 128 + 128) as u8] + var_encoding(v / 128)
    }
}

/// A 32-bit variable-length integer at the start of `s`, and how many bytes it takes.
pub open spec fn parse_var_int(s: Seq<u8>) -> Result<(i32, nat), DeserializerError> {
    match var_scan_from(s, VAR_INT_MAX_BYTES as nat, 0) {
        VarScan::Done(n) => Ok((var_int_value(s, n), n)),
        VarScan::Incomplete => Err(DeserializerError::Incomplete),
        VarScan::TooLong => Err(DeserializerError::VarIntTooBig),
    }
}

/// A 64-bit variable-length integer at the start of `s`, and how many bytes it takes.
pub open spec fn parse_var_long(s: Seq<u8>) -> Result<(i64, nat), DeserializerError> {
    match var_scan_from(s, VAR_LONG_MAX_BYTES as nat, 0) {
        VarScan::Done(n) => Ok((var_long_value(s, n), n)),
        VarScan::Incomplete => Err(DeserializerError::Incomplete),
        VarScan::TooLong => Err(DeserializerError::VarIntTooBig),
    }
}

/// A big-endian 16-bit integer at the start of `s`.
pub open spec fn parse_u16(s: Seq<u8>) -> Result<(u16, nat), DeserializerError> {
    if s.len() < 2 {
        Err(DeserializerError::Incomplete)
    } else {
        Ok(((s[0] as int * 256 + s[1] as int) as u16, 2))
    }
}

/// A byte at the start of `s`.
pub open spec fn parse_u8(s: Seq<u8>) -> Result<(u8, nat), DeserializerError> {
    if s.len() < 1 {
        Err(DeserializerError::Incomplete)
    } else {
        Ok((s[0], 1))
    }
}

/// A boolean at the start of `s`: any byte but zero is true.
pub open spec fn parse_bool(s: Seq<u8>) -> Result<(bool, nat), DeserializerError> {
    if s.len() < 1 {
        Err(DeserializerError::Incomplete)
    } else {
        Ok((s[0] != 0, 1))
    }
}

/// The big-endian number held by the first `n` bytes of `s`.
pub open spec fn be_value(s: Seq<u8>, n: nat) -> int
    decreases n,
{
    if n == 0 {
        0
    } else {
        be_value(s, (n - 1) as nat) * 256 + s[n - 1] as int
    }
}

/// A big-endian 64-bit integer at the start of `s`.
pub open spec fn parse_i64(s: Seq<u8>) -> Result<(i64, nat), DeserializerError> {
    if s.len() < 8 {
        Err(DeserializerError::Incomplete)
    } else {
        Ok(((be_value(s, 8) as u64) as i64, 8))
    }
}

/// A 128-bit identifier at the start of `s`, most significant byte first.
pub open spec fn parse_u128(s: Seq<u8>) -> Result<(u128, nat), DeserializerError> {
    if s.len() < 16 {
        Err(DeserializerError::Incomplete)
    } else {
        Ok((be_value(s, 16) as u128, 16))
    }
}

/// A string at the start of `s`: a byte length of at most `max_size`, then that many UTF-8 bytes.
pub open spec fn parse_string(s: Seq<u8>, max_size: nat) -> Result<(Seq<char>, nat), DeserializerError> {
    match parse_var_int(s) {
        Err(e) => Err(e),
        Ok((len, n)) => {
            let bytes = s.subrange(n as int, n + len);
            if len < 0 || len > max_size {
                Err(DeserializerError::StringTooLong)
            } else if n + len > s.len() {
                Err(DeserializerError::Incomplete)
            } else if !vstd::utf8::valid_utf8(bytes) {
                Err(DeserializerError::InvalidUtf8)
            } else {
                Ok((vstd::utf8::decode_utf8(bytes), (n + len) as nat))
            }
        },
    }
}

/// 256 to the power `n`.
pub open spec fn byte_weight(n: nat) -> nat
    decreases n,
{
    if n == 0 {
        1
    } else {
        256 * byte_weight((n - 1) as nat)
    }
}

proof fn lemma_byte_weight_grows(i: nat, j: nat)
    requires
        i <= j,
    ensures
        byte_weight(i) <= byte_weight(j),
    decreases j - i,
{
    if i < j {
        lemma_byte_weight_grows(i, (j - 1) as nat);
    }
}

proof fn lemma_be_bound(s: Seq<u8>, n: nat)
    requires
        n <= s.len(),
    ensures
        0 <= be_value(s, n) < byte_weight(n),
    decreases n,
{
    if n > 0 {
        lemma_be_bound(s, (n - 1) as nat);
        let a = be_value(s, (n - 1) as nat);
        let w = byte_weight((n - 1) as nat);
        let b = s[n - 1] as int;
        assert(a * 256 + b < 256 * w) by (nonlinear_arith)
            requires
                0 <= a < w,
                0 <= b < 256,
        ;
        assert(a * 256 + b >= 0) by (nonlinear_arith)
            requires
                0 <= a,
                0 <= b,
        ;
    }
}

/// The first `m + n` bytes read big-endian are the first `m` shifted past the next `n`.
proof fn lemma_be_split(s: Seq<u8>, m: nat, n: nat)
    requires
        m + n <= s.len(),
    ensures
        be_value(s, m + n) == be_value(s, m) * byte_weight(n) + be_value(s.skip(m as int), n),
    decreases n,
{
    let t = s.skip(m as int);
    if n > 0 {
        lemma_be_split(s, m, (n - 1) as nat);
        let a = be_value(s, m);
        let w = byte_weight((n - 1) as nat);
        let c = be_value(t, (n - 1) as nat);
        let b = s[m + n - 1] as int;
        assert(t[n - 1] == s[m + n - 1]);
        let prev = be_value(s, (m + n - 1) as nat);
        let whole = be_value(s, m + n);
        let tail = be_value(t, n);
        let g = byte_weight(n);
        assert(whole == prev * 256 + b);
        assert(tail == c * 256 + b);
        assert(g == 256 * w);
        assert(prev == a * w + c);
        assert(whole == a * g + tail) by (nonlinear_arith)
            requires
                whole == prev * 256 + b,
                tail == c * 256 + b,
                g == 256 * w,
                prev == a * w + c,
        ;
    } else {
        let a = be_value(s, m);
        assert(byte_weight(0) == 1);
        assert(be_value(t, 0) == 0);
        assert(a * byte_weight(0) == a) by (nonlinear_arith)
            requires
                byte_weight(0) == 1,
        ;
    }
}

/// A reader over a byte sequence.
pub struct ByteBuffer {
    pub data: Vec<u8>,
    pub pos: usize,
}

/// Relies on `String::from_utf8`: it accepts exactly the valid UTF-8 byte sequences, and keeps
/// their characters.
#[verifier::external_body]
pub(crate) fn string_from_utf8(bytes: Vec<u8>) -> (r: Option<String>)
    ensures
        r is Some <==> vstd::utf8::valid_utf8(bytes@),
        r matches Some(s) ==> s@ == vstd::utf8::decode_utf8(bytes@),
{
    String::from_utf8(bytes).ok()
}

impl ByteBuffer {
    pub open spec fn wf(&self) -> bool {
        self.pos <= self.data@.len()
    }

    /// The bytes not read yet.
    pub open spec fn rest(&self) -> Seq<u8> {
        self.data@.subrange(self.pos as int, self.data@.len() as int)
    }

    pub fn new(data: Vec<u8>) -> (r: ByteBuffer)
        ensures
            r.wf(),
            r.rest() == data@,
            r.data@ == data@,
            r.pos == 0,
    {
        let r = ByteBuffer { data, pos: 0 };
        assert(r.rest() =~= r.data@);
        r
    }

    /// Reads the groups of a variable-length integer of at most `max` bytes.
    fn read_var(&mut self, max: usize) -> (r: Result<u128, DeserializerError>)
        requires
            old(self).wf(),
            1 <= max <= VAR_LONG_MAX_BYTES,
        ensures
            final(self).wf(),
            final(self).data@ == old(self).data@,
            match var_scan_from(old(self).rest(), max as nat, 0) {
                VarScan::Done(n) => r matches Ok(g) && g as int == var_groups(old(self).rest(), n)
                    && final(self).pos == old(self).pos + n && var_groups(old(self).rest(), n)
                    < group_weight(n),
                VarScan::Incomplete => r == Err::<u128, DeserializerError>(
                    DeserializerError::Incomplete,
                ),
                VarScan::TooLong => r == Err::<u128, DeserializerError>(
                    DeserializerError::VarIntTooBig,
                ),
            },
    {
        let ghost s = self.rest();
        let start = self.pos;
        let mut acc: u128 = 0;
        let mut mult: u128 = 1;
        let mut i: usize = 0;
        while i < max
            invariant
                self.wf(),
                self.data@ == old(self).data@,
                self.pos == start,
                s == old(self).rest(),
                start == old(self).pos,
                1 <= max <= VAR_LONG_MAX_BYTES,
                i <= max,
                var_scan_from(s, max as nat, 0) == var_scan_from(s, max as nat, i as nat),
                forall|k: int| 0 <= k < i ==> s[k] >= 128,
                mult == group_weight(i as nat),
                acc == var_groups(s, i as nat),
                acc < mult,
            decreases max - i,
        {
            if i >= self.data.len() - start {
                return Err(DeserializerError::Incomplete);
            }
            let b = self.data[start + i];
            assert(s[i as int] == b);
            proof {
                lemma_weight_grows(i as nat, 9);
                reveal_with_fuel(group_weight, 10);
                assert(group_weight(9) == 0x8000_0000_0000_0000);
                assert((b % 128) as u128 * mult <= 127 * mult) by (nonlinear_arith)
                    requires
                        mult > 0,
                ;
            }
            acc = acc + (b % 128) as u128 * mult;
            if b < 128 {
                self.pos = start + i + 1;
                return Ok(acc);
            }
            mult = mult * 128;
            i += 1;
        }
        Err(DeserializerError::VarIntTooBig)
    }

    /// Reads a variable-length 32-bit integer: at most five bytes.
    pub fn get_var_int(&mut self) -> (r: Result<i32, DeserializerError>)
        requires
            old(self).wf(),
        ensures
            final(self).wf(),
            final(self).data@ == old(self).data@,
            match parse_var_int(old(self).rest()) {
                Ok((v, n)) => r == Ok::<i32, DeserializerError>(v) && final(self).pos == old(self).pos + n,
                Err(e) => r == Err::<i32, DeserializerError>(e),
            },
    {
        let groups = self.read_var(VAR_INT_MAX_BYTES)?;
        #[verifier::truncate]
        let low: u32 = groups as u32;
        #[verifier::truncate]
        let v: i32 = low as i32;
        Ok(v)
    }

    /// Reads a variable-length 64-bit integer: at most ten bytes.
    pub fn get_var_long(&mut self) -> (r: Result<i64, DeserializerError>)
        requires
            old(self).wf(),
        ensures
            final(self).wf(),
            final(self).data@ == old(self).data@,
            match parse_var_long(old(self).rest()) {
                Ok((v, n)) => r == Ok::<i64, DeserializerError>(v) && final(self).pos == old(self).pos + n,
                Err(e) => r == Err::<i64, DeserializerError>(e),
            },
    {
        let groups = self.read_var(VAR_LONG_MAX_BYTES)?;
        #[verifier::truncate]
        let low: u64 = groups as u64;
        #[verifier::truncate]
        let v: i64 = low as i64;
        Ok(v)
    }

    /// Reads an unsigned big-endian 16-bit integer.
    pub fn get_u16(&mut self) -> (r: Result<u16, DeserializerError>)
        requires
            old(self).wf(),
        ensures
            final(self).wf(),
            final(self).data@ == old(self).data@,
            match parse_u16(old(self).rest()) {
                Ok((v, n)) => r == Ok::<u16, DeserializerError>(v) && final(self).pos == old(self).pos + n,
                Err(e) => r == Err::<u16, DeserializerError>(e),
            },
    {
        if self.data.len() - self.pos < 2 {
            return Err(DeserializerError::Incomplete);
        }
        let v = self.data[self.pos] as u16 * 256 + self.data[self.pos + 1] as u16;
        self.pos = self.pos + 2;
        Ok(v)
    }

    pub fn get_u8(&mut self) -> (r: Result<u8, DeserializerError>)
        requires
            old(self).wf(),
        ensures
            final(self).wf(),
            final(self).data@ == old(self).data@,
            match parse_u8(old(self).rest()) {
                Ok((v, n)) => r == Ok::<u8, DeserializerError>(v) && final(self).pos == old(self).pos + n,
                Err(e) => r == Err::<u8, DeserializerError>(e),
            },
    {
        if self.pos >= self.data.len() {
            return Err(DeserializerError::Incomplete);
        }
        let v = self.data[self.pos];
        self.pos = self.pos + 1;
        Ok(v)
    }

    pub fn get_bool(&mut self) -> (r: Result<bool, DeserializerError>)
        requires
            old(self).wf(),
        ensures
            final(self).wf(),
            final(self).data@ == old(self).data@,
            match parse_bool(old(self).rest()) {
                Ok((v, n)) => r == Ok::<bool, DeserializerError>(v) && final(self).pos == old(self).pos + n,
                Err(e) => r == Err::<bool, DeserializerError>(e),
            },
    {
        let b = self.get_u8()?;
        Ok(b != 0)
    }

    /// Reads `n` bytes as a big-endian number.
    fn get_be(&mut self, n: usize) -> (r: Result<u64, DeserializerError>)
        requires
            old(self).wf(),
            n <= 8,
        ensures
            final(self).wf(),
            final(self).data@ == old(self).data@,
            old(self).rest().len() < n ==> r == Err::<u64, DeserializerError>(
                DeserializerError::Incomplete,
            ),
            old(self).rest().len() >= n ==> (r matches Ok(v) && v as int == be_value(
                old(self).rest(),
                n as nat,
            ) && final(self).pos == old(self).pos + n),
    {
        if self.data.len() - self.pos < n {
            return Err(DeserializerError::Incomplete);
        }
        let ghost s = self.rest();
        let mut acc: u64 = 0;
        let mut k: usize = 0;
        while k < n
            invariant
                self.wf(),
                s == self.rest(),
                n <= 8,
                n <= s.len(),
                self.data@.len() <= usize::MAX,
                k <= n,
                acc as int == be_value(s, k as nat),
                acc < byte_weight(k as nat),
            decreases n - k,
        {
            proof {
                lemma_byte_weight_grows(k as nat, 7);
                reveal_with_fuel(byte_weight, 9);
                assert(byte_weight(7) == 0x100_0000_0000_0000);
            }
            let b = self.data[self.pos + k];
            assert(b == s[k as int]);
            acc = acc * 256 + b as u64;
            k += 1;
        }
        self.pos = self.pos + n;
        Ok(acc)
    }

    pub fn get_i64(&mut self) -> (r: Result<i64, DeserializerError>)
        requires
            old(self).wf(),
        ensures
            final(self).wf(),
            final(self).data@ == old(self).data@,
            match parse_i64(old(self).rest()) {
                Ok((v, n)) => r == Ok::<i64, DeserializerError>(v) && final(self).pos == old(self).pos + n,
                Err(e) => r == Err::<i64, DeserializerError>(e),
            },
    {
        let v = self.get_be(8)?;
        #[verifier::truncate]
        let signed: i64 = v as i64;
        Ok(signed)
    }

    pub fn get_u128(&mut self) -> (r: Result<u128, DeserializerError>)
        requires
            old(self).wf(),
        ensures
            final(self).wf(),
            final(self).data@ == old(self).data@,
            match parse_u128(old(self).rest()) {
                Ok((v, n)) => r == Ok::<u128, DeserializerError>(v) && final(self).pos == old(self).pos + n,
                Err(e) => r == Err::<u128, DeserializerError>(e),
            },
    {
        let ghost s = self.rest();
        if self.data.len() - self.pos < 16 {
            return Err(DeserializerError::Incomplete);
        }
        let hi = self.get_be(8)?;
        let ghost t = self.rest();
        assert(t =~= s.skip(8));
        let lo = self.get_be(8)?;
        proof {
            lemma_be_split(s, 8, 8);
            lemma_be_bound(t, 8);
            lemma_be_bound(s, 8);
            reveal_with_fuel(byte_weight, 9);
        }
        Ok(hi as u128 * 0x1_0000_0000_0000_0000 + lo as u128)
    }

    /// Reads a string prefixed by its byte length, refusing lengths over `max_size`.
    pub fn get_string_len(&mut self, max_size: usize) -> (r: Result<String, DeserializerError>)
        requires
            old(self).wf(),
        ensures
            final(self).wf(),
            final(self).data@ == old(self).data@,
            match parse_string(old(self).rest(), max_size as nat) {
                Ok((v, n)) => r matches Ok(text) && text@ == v && final(self).pos == old(self).pos + n,
                Err(e) => r == Err::<String, DeserializerError>(e),
            },
    {
        let ghost s = self.rest();
        let ghost start_pos = self.pos;
        let size = self.get_var_int()?;
        if size < 0 || size as usize > max_size {
            return Err(DeserializerError::StringTooLong);
        }
        let size = size as usize;
        if self.data.len() - self.pos < size {
            return Err(DeserializerError::Incomplete);
        }
        let mut bytes: Vec<u8> = Vec::new();
        let from = self.pos;
        let mut k: usize = 0;
        while k < size
            invariant
                self.wf(),
                from == self.pos,
                from + size <= self.data@.len(),
                self.data@.len() <= usize::MAX,
                k <= size,
                bytes@ == self.data@.subrange(from as int, from + k),
            decreases size - k,
        {
            bytes.push(self.data[from + k]);
            k += 1;
            assert(bytes@ =~= self.data@.subrange(from as int, from + k));
        }
        assert(bytes@ =~= s.subrange(from - start_pos, from - start_pos + size));
        match string_from_utf8(bytes) {
            Some(text) => {
                self.pos = from + size;
                Ok(text)
            },
            None => Err(DeserializerError::InvalidUtf8),
        }
    }
}

/// Writes `value` as a 32-bit variable-length integer: its two's-complement bits, seven at a
/// time.
pub fn write_var_int(out: &mut Vec<u8>, value: i32)
    ensures
        final(out)@ == old(out)@ + var_encoding(value as u32 as u64),
{
    #[verifier::truncate]
    let bits: u32 = value as u32;
    write_var(out, bits as u64);
}

/// Writes `value` in groups of seven bits, least significant first.
pub fn write_var(out: &mut Vec<u8>, value: u64)
    ensures
        final(out)@ == old(out)@ + var_encoding(value),
    decreases value,
{
    if value < 128 {
        out.push(value as u8);
        assert(final(out)@ =~= old(out)@ + var_encoding(value));
    } else {
        out.push((value % 128 + 128) as u8);
        write_var(out, value / 128);
        assert(final(out)@ =~= old(out)@ + var_encoding(value));
    }
}

} // verus!

verus! {

proof fn lemma_groups_front(s: Seq<u8>, n: nat)
    requires
        1 <= n <= s.len(),
    ensures
        var_groups(s, n) == (s[0] % 128) as int + 128 * var_groups(s.drop_first(), (n - 1) as nat),
    decreases n,
{
    let t = s.drop_first();
    let c = (s[n - 1] % 128) as int;
    assert(var_groups(s, n) == var_groups(s, (n - 1) as nat) + c * group_weight((n - 1) as nat));
    if n == 1 {
        assert(var_groups(s, 0) == 0);
        assert(var_groups(t, 0) == 0);
        let g0 = group_weight(0);
        assert(g0 == 1);
        assert(c * g0 == c) by (nonlinear_arith)
            requires
                g0 == 1,
        ;
        assert(s[n - 1] == s[0]);
        assert(var_groups(s, n) == (s[0] % 128) as int + 128 * var_groups(t, (n - 1) as nat));
    } else {
        lemma_groups_front(s, (n - 1) as nat);
        let s0 = (s[0] % 128) as int;
        let a = var_groups(t, (n - 2) as nat);
        let w = group_weight((n - 2) as nat);
        let g = group_weight((n - 1) as nat);
        let prev = var_groups(s, (n - 1) as nat);
        let whole = var_groups(s, n);
        let tail = var_groups(t, (n - 1) as nat);
        assert(s[n - 1] == t[n - 2]);
        assert(tail == a + c * w);
        assert(g == 128 * w);
        assert(prev == s0 + 128 * a);
        assert(whole == prev + c * g);
        assert(whole == s0 + 128 * tail) by (nonlinear_arith)
            requires
                tail == a + c * w,
                g == 128 * w,
                prev == s0 + 128 * a,
                whole == prev + c * g,
        ;
        assert(var_groups(s, n) == (s[0] % 128) as int + 128 * var_groups(t, (n - 1) as nat));
    }
}

proof fn lemma_groups_prefix(s: Seq<u8>, t: Seq<u8>, n: nat)
    requires
        n <= s.len(),
        n <= t.len(),
        s.subrange(0, n as int) == t.subrange(0, n as int),
    ensures
        var_groups(s, n) == var_groups(t, n),
    decreases n,
{
    if n > 0 {
        assert(s[n - 1] == s.subrange(0, n as int)[n - 1]);
        assert(t[n - 1] == t.subrange(0, n as int)[n - 1]);
        assert(s.subrange(0, n - 1) =~= s.subrange(0, n as int).subrange(0, n - 1));
        assert(t.subrange(0, n - 1) =~= t.subrange(0, n as int).subrange(0, n - 1));
        lemma_groups_prefix(s, t, (n - 1) as nat);
    }
}

proof fn lemma_encoding_len(x: u64, k: nat)
    requires
        1 <= k,
        x < group_weight(k),
    ensures
        var_encoding(x).len() <= k,
    decreases x,
{
    if x >= 128 {
        if k == 1 {
            assert(group_weight(1) == 128 * group_weight(0));
        }
        let y = x / 128;
        assert(group_weight(k) == 128 * group_weight((k - 1) as nat));
        lemma_encoding_len(y, (k - 1) as nat);
    }
}

proof fn lemma_encoding_shape(x: u64)
    ensures
        var_encoding(x).len() >= 1,
        var_encoding(x)[var_encoding(x).len() - 1] < 128,
        forall|k: int| 0 <= k < var_encoding(x).len() - 1 ==> var_encoding(x)[k] >= 128,
        var_groups(var_encoding(x), var_encoding(x).len()) == x,
    decreases x,
{
    let e = var_encoding(x);
    if x < 128 {
        assert(var_groups(e, 0) == 0);
        assert(group_weight(0) == 1);
        assert(var_groups(e, 1) == var_groups(e, 0) + (e[0] % 128) as int * group_weight(0));
    } else {
        let y = x / 128;
        lemma_encoding_shape(y);
        let t = var_encoding(y);
        assert(e == seq![(x % 128 + 128) as u8] + t);
        assert(e.drop_first() =~= t);
        lemma_groups_front(e, e.len());
        assert((e[0] % 128) as int == x % 128);
        assert forall|k: int| 0 <= k < e.len() - 1 implies e[k] >= 128 by {
            if k > 0 {
                assert(e[k] == t[k - 1]);
            }
        }
    }
}

proof fn lemma_scan_done(s: Seq<u8>, max: nat, i: nat, j: nat)
    requires
        i <= j,
        j < max,
        j < s.len(),
        s[j as int] < 128,
        forall|k: int| i <= k < j ==> s[k] >= 128,
    ensures
        var_scan_from(s, max, i) == VarScan::Done(j + 1),
    decreases j - i,
{
    if i < j {
        lemma_scan_done(s, max, i + 1, j);
    }
}

/// Reading back a 32-bit variable-length integer that was written gives the same value and
/// takes exactly the written bytes, whatever follows them.
pub proof fn lemma_var_int_round_trip(value: i32, rest: Seq<u8>)
    ensures
        parse_var_int(var_encoding(value as u32 as u64) + rest) == Ok::<(i32, nat), DeserializerError>(
            (value, var_encoding(value as u32 as u64).len()),
        ),
{
    let x = value as u32 as u64;
    let e = var_encoding(x);
    let s = e + rest;
    lemma_encoding_shape(x);
    reveal_with_fuel(group_weight, 6);
    assert(group_weight(5) == 0x8_0000_0000);
    lemma_encoding_len(x, 5);
    lemma_scan_done(s, VAR_INT_MAX_BYTES as nat, 0, (e.len() - 1) as nat);
    assert(s.subrange(0, e.len() as int) =~= e.subrange(0, e.len() as int));
    lemma_groups_prefix(s, e, e.len());
    assert(var_groups(s, e.len()) == x);
    assert(((value as u32) as u64 as u32) as i32 == value) by (bit_vector);
}

} // verus!
