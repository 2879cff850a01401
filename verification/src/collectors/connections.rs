//! Network connections parsed out of the kernel's connection tables.
//! The parser works on the text of one table: a header line, then one
//! line per connection whose fields hold hex-encoded addresses and a
//! hex-encoded state. The table text is ASCII; non-ASCII input yields
//! no connections.
use vstd::prelude::*;
use vstd::string::StrSliceExecFns;
use vstd::string::StringExecFns;
use crate::seq_view;

verus! {

/// One network connection.
pub struct ConnectionInfo {
    pub protocol: String,
    pub local_address: String,
    pub remote_address: String,
    pub state: String,
    pub pid: Option<u32>,
    pub process_name: Option<String>,
}

/// Mathematical model of `ConnectionInfo`.
pub ghost struct ConnectionInfoView {
    pub protocol: Seq<char>,
    pub local_address: Seq<char>,
    pub remote_address: Seq<char>,
    pub state: Seq<char>,
    pub pid: Option<u32>,
    pub process_name: Option<Seq<char>>,
}

impl View for ConnectionInfo {
    type V = ConnectionInfoView;

    open spec fn view(&self) -> ConnectionInfoView {
        ConnectionInfoView {
            protocol: self.protocol@,
            local_address: self.local_address@,
            remote_address: self.remote_address@,
            state: self.state@,
            pid: self.pid,
            process_name: match self.process_name {
                Some(ref n) => Some(n@),
                None => None,
            },
        }
    }
}

impl Clone for ConnectionInfo {
    fn clone(&self) -> (res: Self)
        ensures
            res@ == self@,
    {
        ConnectionInfo {
            protocol: self.protocol.clone(),
            local_address: self.local_address.clone(),
            remote_address: self.remote_address.clone(),
            state: self.state.clone(),
            pid: self.pid,
            process_name: match self.process_name {
                Some(ref n) => Some(n.clone()),
                None => None,
            },
        }
    }
}

impl ConnectionInfo {
    /// A connection record with the given fields.
    pub fn new(
        protocol: String,
        local_address: String,
        remote_address: String,
        state: String,
        pid: Option<u32>,
        process_name: Option<String>,
    ) -> (r: ConnectionInfo)
        ensures
            r.protocol == protocol,
            r.local_address == local_address,
            r.remote_address == remote_address,
            r.state == state,
            r.pid == pid,
            r.process_name == process_name,
    {
        ConnectionInfo { protocol, local_address, remote_address, state, pid, process_name }
    }
}

/// ASCII whitespace, as the field splitter understands it.
pub open spec fn is_ws(c: char) -> bool {
    c == ' ' || c == '\t' || c == '\n' || c == '\r' || c == '\u{b}' || c == '\u{c}'
}

/// The newline test, under one name so every use is the same function.
pub open spec fn nl_hit() -> spec_fn(char) -> bool {
    |c: char| c == '\n'
}

/// The colon test.
pub open spec fn colon_hit() -> spec_fn(char) -> bool {
    |c: char| c == ':'
}

/// The whitespace test.
pub open spec fn ws_hit() -> spec_fn(char) -> bool {
    |c: char| is_ws(c)
}

/// The non-whitespace test.
pub open spec fn word_hit() -> spec_fn(char) -> bool {
    |c: char| !is_ws(c)
}

/// How many characters lie between position `i` and the first one that
/// satisfies `hit`, that position excluded.
pub open spec fn scan_offset(s: Seq<char>, i: int, hit: spec_fn(char) -> bool) -> nat
    decreases s.len() - i,
{
    if i < 0 || i >= s.len() {
        0
    } else if hit(s[i]) {
        0
    } else {
        1 + scan_offset(s, i + 1, hit)
    }
}

/// The position of the first character at or after `i` that satisfies
/// `hit`, or the end of the text.
pub open spec fn scan_stop(s: Seq<char>, i: int, hit: spec_fn(char) -> bool) -> int {
    let e = i + scan_offset(s, i, hit);
    if e > s.len() {
        s.len() as int
    } else {
        e
    }
}

/// What `scan_stop` finds: nothing satisfies `hit` before it, and it is
/// either the end of the text or the first hit.
proof fn lemma_scan_stop(s: Seq<char>, i: int, hit: spec_fn(char) -> bool)
    requires
        0 <= i <= s.len(),
    ensures
        i <= scan_stop(s, i, hit) <= s.len(),
        scan_stop(s, i, hit) == i + scan_offset(s, i, hit),
        forall|j: int| i <= j < scan_stop(s, i, hit) ==> !hit(s[j]),
        scan_stop(s, i, hit) < s.len() ==> hit(s[scan_stop(s, i, hit)]),
    decreases s.len() - i,
{
    if i < s.len() && !hit(s[i]) {
        lemma_scan_stop(s, i + 1, hit);
        assert(scan_stop(s, i, hit) == scan_stop(s, i + 1, hit));
    }
}

/// The lines of the text from position `start` on: line breaks are
/// newlines, a carriage return directly before a newline is dropped,
/// and a final newline ends the last line rather than opening an empty
/// one.
pub open spec fn lines_from(s: Seq<char>, start: int) -> Seq<Seq<char>>
    decreases s.len() - start + 1,
{
    if start < 0 || start >= s.len() {
        Seq::empty()
    } else {
        let e = scan_stop(s, start, nl_hit());
        let raw = s.subrange(start, e);
        let line = if e < s.len() && raw.len() > 0 && raw.last() == '\r' {
            raw.drop_last()
        } else {
            raw
        };
        seq![line] + lines_from(s, e + 1)
    }
}

/// The whitespace-separated fields of one line, in order.
pub open spec fn fields_of(s: Seq<char>, start: int) -> Seq<Seq<char>>
    decreases s.len() - start + 1,
{
    if start < 0 || start >= s.len() {
        Seq::empty()
    } else {
        let a = scan_stop(s, start, word_hit());
        if a >= s.len() {
            Seq::empty()
        } else {
            let b0 = scan_stop(s, a, ws_hit());
            let b = if b0 <= a {
                a + 1
            } else {
                b0
            };
            seq![s.subrange(a, b)] + fields_of(s, b)
        }
    }
}

/// A hexadecimal digit.
pub open spec fn is_hex(c: char) -> bool {
    ('0' <= c && c <= '9') || ('a' <= c && c <= 'f') || ('A' <= c && c <= 'F')
}

/// The value of one hexadecimal digit.
pub open spec fn hex_digit(c: char) -> int {
    if '0' <= c && c <= '9' {
        c as int - '0' as int
    } else if 'a' <= c && c <= 'f' {
        10 + c as int - 'a' as int
    } else if 'A' <= c && c <= 'F' {
        10 + c as int - 'A' as int
    } else {
        0
    }
}

/// Whether every character is a hexadecimal digit.
pub open spec fn all_hex(s: Seq<char>) -> bool {
    forall|i: int| 0 <= i < s.len() ==> is_hex(#[trigger] s[i])
}

/// The number a sequence of hexadecimal digits denotes.
pub open spec fn hex_num(s: Seq<char>) -> int
    decreases s.len(),
{
    if s.len() == 0 {
        0
    } else {
        hex_num(s.drop_last()) * 16 + hex_digit(s.last())
    }
}

/// One byte of the hex-encoded address: two digits, in the order they
/// stand in the text; a malformed pair counts as zero.
pub open spec fn hex_pair(ip: Seq<char>, k: int) -> int {
    if is_hex(ip[2 * k]) && is_hex(ip[2 * k + 1]) {
        hex_digit(ip[2 * k]) * 16 + hex_digit(ip[2 * k + 1])
    } else {
        0
    }
}

/// The port a hex field denotes: zero when the field is empty, holds a
/// non-digit, or overflows a port number.
pub open spec fn port_num(s: Seq<char>) -> int {
    if s.len() >= 1 && all_hex(s) && hex_num(s) <= 65535 {
        hex_num(s)
    } else {
        0
    }
}

/// The decimal digits of a non-negative number, most significant
/// first.
pub open spec fn dec_chars(n: int) -> Seq<char>
    decreases n,
{
    let digit = seq![((n % 10) + ('0' as int)) as char];
    if n <= 9 {
        digit
    } else {
        dec_chars(n / 10) + digit
    }
}

/// How many colons the text holds.
pub open spec fn colon_count(s: Seq<char>) -> int
    decreases s.len(),
{
    if s.len() == 0 {
        0
    } else {
        colon_count(s.drop_last()) + if s.last() == ':' {
            1int
        } else {
            0int
        }
    }
}

/// What an address field of the table turns into: a field of exactly
/// one colon, eight hex digits before it, becomes the four dotted
/// decimal bytes in text order and the decimal port; any other shape
/// passes through unchanged.
pub open spec fn spec_address(s: Seq<char>) -> Seq<char> {
    if colon_count(s) != 1 {
        s
    } else {
        let p = scan_stop(s, 0, colon_hit());
        let ip = s.take(p);
        let port = s.skip(p + 1);
        if ip.len() != 8 {
            s
        } else {
            dec_chars(hex_pair(ip, 0)) + seq!['.'] + dec_chars(hex_pair(ip, 1)) + seq!['.']
                + dec_chars(hex_pair(ip, 2)) + seq!['.'] + dec_chars(hex_pair(ip, 3)) + seq![':']
                + dec_chars(port_num(port))
        }
    }
}

/// The connection state a hex state field denotes.
pub open spec fn spec_tcp_state(s: Seq<char>) -> Seq<char> {
    if s == seq!['0', '1'] {
        "ESTABLISHED"@
    } else if s == seq!['0', '2'] {
        "SYN_SENT"@
    } else if s == seq!['0', '3'] {
        "SYN_RECV"@
    } else if s == seq!['0', '4'] {
        "FIN_WAIT1"@
    } else if s == seq!['0', '5'] {
        "FIN_WAIT2"@
    } else if s == seq!['0', '6'] {
        "TIME_WAIT"@
    } else if s == seq!['0', '7'] {
        "CLOSE"@
    } else if s == seq!['0', '8'] {
        "CLOSE_WAIT"@
    } else if s == seq!['0', '9'] {
        "LAST_ACK"@
    } else if s == seq!['0', 'A'] {
        "LISTEN"@
    } else if s == seq!['0', 'B'] {
        "CLOSING"@
    } else {
        "UNKNOWN"@
    }
}

/// The connection one table line yields: none when the line has fewer
/// than ten fields.
pub open spec fn conn_of_line(line: Seq<char>, proto: Seq<char>) -> Option<ConnectionInfoView> {
    let fs = fields_of(line, 0);
    if fs.len() < 10 {
        None
    } else {
        Some(
            ConnectionInfoView {
                protocol: proto,
                local_address: spec_address(fs[1]),
                remote_address: spec_address(fs[2]),
                state: spec_tcp_state(fs[3]),
                pid: None,
                process_name: None,
            },
        )
    }
}

/// The connections a list of table lines yields, in line order.
pub open spec fn conns_of_lines(ls: Seq<Seq<char>>, proto: Seq<char>) -> Seq<ConnectionInfoView>
    decreases ls.len(),
{
    if ls.len() == 0 {
        Seq::empty()
    } else {
        conns_of_lines(ls.drop_last(), proto) + match conn_of_line(ls.last(), proto) {
            Some(c) => seq![c],
            None => Seq::empty(),
        }
    }
}

/// The connections one whole table text yields: its lines past the
/// header, parsed. Non-ASCII text yields none.
pub open spec fn spec_proc_net(d: Seq<char>, proto: Seq<char>) -> Seq<ConnectionInfoView> {
    if !vstd::utf8::is_ascii_chars(d) {
        Seq::empty()
    } else {
        let ls = lines_from(d, 0);
        if ls.len() <= 1 {
            Seq::empty()
        } else {
            conns_of_lines(ls.skip(1), proto)
        }
    }
}

/// The character length of ASCII text, via its bytes.
fn text_len(s: &str) -> (n: usize)
    requires
        s.is_ascii(),
    ensures
        n == s@.len(),
{
    let b = s.as_bytes();
    proof {
        broadcast use vstd::slice::group_slice_axioms;

        vstd::string::is_ascii_spec_bytes(s);
    }
    b.len()
}

/// The position of the first character at or after `from` the test
/// picks out, or the end of the text. Which test runs is chosen by
/// `mode`: newline, colon, whitespace or non-whitespace.
fn scan_for(data: &str, from: usize, mode: u8) -> (e: usize)
    requires
        data.is_ascii(),
        from as int <= data@.len(),
        mode == 0 || mode == 1 || mode == 2 || mode == 3,
    ensures
        e as int == scan_stop(data@, from as int, pick_hit(mode)),
{
    let n = text_len(data);
    let ghost hit = pick_hit(mode);
    let mut j = from;
    while j < n
        invariant
            data.is_ascii(),
            n == data@.len(),
            from <= j <= n,
            hit == pick_hit(mode),
            mode == 0 || mode == 1 || mode == 2 || mode == 3,
            scan_stop(data@, from as int, hit) == scan_stop(data@, j as int, hit),
        decreases n - j,
    {
        let b = data.get_ascii(j);
        let ghost c = data@[j as int];
        proof {
            assert(c as u8 == b);
            assert('\0' <= c <= '\u{7f}');
        }
        let found: bool = if mode == 0 {
            b == 10
        } else if mode == 1 {
            b == 58
        } else if mode == 2 {
            b == 32 || b == 9 || b == 10 || b == 13 || b == 11 || b == 12
        } else {
            !(b == 32 || b == 9 || b == 10 || b == 13 || b == 11 || b == 12)
        };
        proof {
            assert(found == hit(c));
        }
        if found {
            proof {
                assert(scan_stop(data@, j as int, hit) == j as int);
            }
            return j;
        }
        proof {
            assert(scan_stop(data@, j as int, hit) == scan_stop(data@, j + 1 as int, hit));
        }
        j = j + 1;
    }
    proof {
        assert(scan_stop(data@, j as int, hit) == j as int);
    }
    j
}

/// The test `scan_for` runs for each mode value.
pub open spec fn pick_hit(mode: u8) -> spec_fn(char) -> bool {
    if mode == 0 {
        nl_hit()
    } else if mode == 1 {
        colon_hit()
    } else if mode == 2 {
        ws_hit()
    } else {
        word_hit()
    }
}

/// Splits one line into its whitespace-separated fields.
fn split_fields<'a>(line: &'a str) -> (fs: Vec<&'a str>)
    requires
        line.is_ascii(),
    ensures
        seq_view(fs@) == fields_of(line@, 0),
        forall|i: int| 0 <= i < fs@.len() ==> (#[trigger] fs@[i]).is_ascii(),
{
    let n = text_len(line);
    let mut fs: Vec<&'a str> = Vec::new();
    let mut pos: usize = 0;
    while pos < n
        invariant
            line.is_ascii(),
            n == line@.len(),
            pos <= n,
            fields_of(line@, 0) == seq_view(fs@) + fields_of(line@, pos as int),
            forall|i: int| 0 <= i < fs@.len() ==> (#[trigger] fs@[i]).is_ascii(),
        decreases n - pos,
    {
        let a = scan_for(line, pos, 3);
        proof {
            lemma_scan_stop(line@, pos as int, word_hit());
        }
        if a >= n {
            proof {
                assert(fields_of(line@, pos as int) =~= Seq::<Seq<char>>::empty());
                assert(fields_of(line@, 0) =~= seq_view(fs@));
            }
            pos = n;
        } else {
            let b = scan_for(line, a, 2);
            proof {
                lemma_scan_stop(line@, a as int, ws_hit());
                assert(!is_ws(line@[a as int]));
                assert(b > a);
            }
            let field = line.substring_ascii(a, b);
            let ghost before = seq_view(fs@);
            fs.push(field);
            proof {
                assert(fields_of(line@, pos as int) == seq![line@.subrange(a as int, b as int)]
                    + fields_of(line@, b as int));
                assert(seq_view(fs@) =~= before.push(field@));
                assert(seq_view(fs@) + fields_of(line@, b as int) =~= (before + fields_of(
                    line@,
                    pos as int,
                )));
            }
            pos = b;
        }
    }
    proof {
        assert(fields_of(line@, pos as int) =~= Seq::<Seq<char>>::empty());
        assert(seq_view(fs@) =~= fields_of(line@, 0));
    }
    fs
}

/// The value of one hexadecimal digit character, if it is one.
fn hex_val(c: char) -> (r: Option<u8>)
    ensures
        match r {
            Some(v) => is_hex(c) && v == hex_digit(c) && v <= 15,
            None => !is_hex(c),
        },
{
    if c >= '0' && c <= '9' {
        Some((c as u8) - 48)
    } else if c >= 'a' && c <= 'f' {
        Some(10 + (c as u8) - 97)
    } else if c >= 'A' && c <= 'F' {
        Some(10 + (c as u8) - 65)
    } else {
        None
    }
}

/// Appends the decimal digits of a number to the text being built.
fn append_dec(out: &mut String, n: u32)
    ensures
        final(out)@ == old(out)@ + dec_chars(n as int),
    decreases n,
{
    if n >= 10 {
        append_dec(out, n / 10);
    }
    let d = n % 10;
    if d == 0 {
        out.append("0");
        proof {
            reveal_strlit("0");
        }
    } else if d == 1 {
        out.append("1");
        proof {
            reveal_strlit("1");
        }
    } else if d == 2 {
        out.append("2");
        proof {
            reveal_strlit("2");
        }
    } else if d == 3 {
        out.append("3");
        proof {
            reveal_strlit("3");
        }
    } else if d == 4 {
        out.append("4");
        proof {
            reveal_strlit("4");
        }
    } else if d == 5 {
        out.append("5");
        proof {
            reveal_strlit("5");
        }
    } else if d == 6 {
        out.append("6");
        proof {
            reveal_strlit("6");
        }
    } else if d == 7 {
        out.append("7");
        proof {
            reveal_strlit("7");
        }
    } else if d == 8 {
        out.append("8");
        proof {
            reveal_strlit("8");
        }
    } else {
        out.append("9");
        proof {
            reveal_strlit("9");
        }
    }
    proof {
        assert(final(out)@ =~= old(out)@ + dec_chars(n as int));
    }
}

/// Rewrites one address field of the table into dotted decimal form,
/// exactly as `spec_address` says; a field of another shape passes
/// through unchanged.
pub fn parse_address(addr: &str) -> (r: String)
    requires
        addr.is_ascii(),
    ensures
        r@ == spec_address(addr@),
{
    let n = text_len(addr);
    // count the colons, remembering the first
    let mut colons: usize = 0;
    let mut j: usize = 0;
    while j < n
        invariant
            addr.is_ascii(),
            n == addr@.len(),
            j <= n,
            colons == colon_count(addr@.take(j as int)),
            colons <= j,
        decreases n - j,
    {
        let b = addr.get_ascii(j);
        proof {
            assert(addr@.take(j + 1 as int).drop_last() =~= addr@.take(j as int));
            assert(addr@.take(j + 1 as int).last() == addr@[j as int]);
            assert((addr@[j as int] == ':') == (b == 58));
        }
        if b == 58 {
            colons = colons + 1;
        }
        j = j + 1;
    }
    proof {
        assert(addr@.take(n as int) =~= addr@);
    }
    if colons != 1 {
        let r = String::from_str(addr);
        return r;
    }
    let p = scan_for(addr, 0, 1);
    proof {
        lemma_scan_stop(addr@, 0, colon_hit());
        assert(p < n) by {
            if p == n {
                lemma_colon_count_zero(addr@.take(n as int));
            }
        }
    }
    if p != 8 {
        let r = String::from_str(addr);
        return r;
    }
    // the four address bytes, two hex digits each
    let ghost ip = addr@.take(8);
    let mut bytes: [u8; 4] = [0, 0, 0, 0];
    let mut k: usize = 0;
    while k < 4
        invariant
            addr.is_ascii(),
            n == addr@.len(),
            8 < n,
            ip == addr@.take(8),
            k <= 4,
            forall|m: int| 0 <= m < k ==> bytes@[m] == hex_pair(ip, m),
        decreases 4 - k,
    {
        let hi = addr.get_char(2 * k);
        let lo = addr.get_char(2 * k + 1);
        proof {
            assert(ip[2 * k as int] == addr@[2 * k as int]);
            assert(ip[2 * k as int + 1] == addr@[2 * k as int + 1]);
        }
        let v: u8 = match (hex_val(hi), hex_val(lo)) {
            (Some(a), Some(b)) => a * 16 + b,
            _ => 0,
        };
        let ghost old_bytes = bytes@;
        bytes[k] = v;
        proof {
            assert(bytes@[k as int] == hex_pair(ip, k as int));
            assert(forall|m: int| 0 <= m < k ==> bytes@[m] == old_bytes[m]);
        }
        k = k + 1;
    }
    // the port, hex digits after the colon
    let port_str = addr.substring_ascii(p + 1, n);
    let m = text_len(port_str);
    let mut acc: u32 = 0;
    let mut okhex: bool = true;
    let mut q: usize = 0;
    while q < m
        invariant
            port_str.is_ascii(),
            m == port_str@.len(),
            q <= m,
            okhex == all_hex(port_str@.take(q as int)),
            acc <= 65536,
            okhex ==> {
                &&& (hex_num(port_str@.take(q as int)) <= 65535 ==> acc == hex_num(
                    port_str@.take(q as int),
                ))
                &&& (hex_num(port_str@.take(q as int)) > 65535 ==> acc == 65536)
            },
        decreases m - q,
    {
        let c = port_str.get_char(q);
        proof {
            assert(port_str@.take(q + 1 as int).drop_last() =~= port_str@.take(q as int));
            assert(port_str@.take(q + 1 as int).last() == port_str@[q as int]);
        }
        match hex_val(c) {
            Some(v) => {
                let ghost pre = port_str@.take(q as int);
                proof {
                    if okhex {
                        lemma_hex_num_nonneg(pre);
                    }
                    assert(all_hex(port_str@.take(q + 1 as int)) == (all_hex(pre) && is_hex(
                        port_str@[q as int],
                    )));
                }
                let next: u32 = acc * 16 + (v as u32);
                acc = if next > 65535 {
                    65536
                } else {
                    next
                };
            },
            None => {
                okhex = false;
                proof {
                    assert(!all_hex(port_str@.take(q + 1 as int)));
                }
            },
        }
        q = q + 1;
    }
    proof {
        assert(port_str@.take(m as int) =~= port_str@);
    }
    let port: u32 = if okhex && m >= 1 && acc <= 65535 {
        acc
    } else {
        0
    };
    proof {
        if okhex && m >= 1 && acc <= 65535 {
            assert(port == port_num(port_str@));
        } else {
            if okhex && m >= 1 {
                lemma_hex_num_nonneg(port_str@);
                assert(hex_num(port_str@) > 65535);
            }
            assert(port == port_num(port_str@));
        }
    }
    // assemble "a.b.c.d:port"
    let mut out = String::new();
    append_dec(&mut out, bytes[0] as u32);
    out.append(".");
    append_dec(&mut out, bytes[1] as u32);
    out.append(".");
    append_dec(&mut out, bytes[2] as u32);
    out.append(".");
    append_dec(&mut out, bytes[3] as u32);
    out.append(":");
    append_dec(&mut out, port);
    proof {
        reveal_strlit(".");
        reveal_strlit(":");
        assert(port_str@ == addr@.skip(p as int + 1));
        assert(out@ =~= spec_address(addr@));
    }
    out
}

/// A hex number is never negative.
proof fn lemma_hex_num_nonneg(s: Seq<char>)
    ensures
        hex_num(s) >= 0,
    decreases s.len(),
{
    if s.len() > 0 {
        lemma_hex_num_nonneg(s.drop_last());
        assert(hex_digit(s.last()) >= 0);
    }
}

/// Text without a colon counts zero colons.
proof fn lemma_colon_count_zero(s: Seq<char>)
    requires
        forall|j: int| 0 <= j < s.len() ==> s[j] != ':',
    ensures
        colon_count(s) == 0,
    decreases s.len(),
{
    if s.len() > 0 {
        lemma_colon_count_zero(s.drop_last());
    }
}

/// Decodes one hex state field into the connection state's name,
/// exactly as `spec_tcp_state` says.
pub fn parse_tcp_state(state_hex: &str) -> (r: String)
    requires
        state_hex.is_ascii(),
    ensures
        r@ == spec_tcp_state(state_hex@),
{
    if text_len(state_hex) == 2 {
        let c0 = state_hex.get_char(0);
        let c1 = state_hex.get_char(1);
        proof {
            assert(state_hex@ =~= seq![c0, c1]);
        }
        if c0 == '0' {
            match c1 {
                '1' => {
                    return String::from_str("ESTABLISHED");
                },
                '2' => {
                    return String::from_str("SYN_SENT");
                },
                '3' => {
                    return String::from_str("SYN_RECV");
                },
                '4' => {
                    return String::from_str("FIN_WAIT1");
                },
                '5' => {
                    return String::from_str("FIN_WAIT2");
                },
                '6' => {
                    return String::from_str("TIME_WAIT");
                },
                '7' => {
                    return String::from_str("CLOSE");
                },
                '8' => {
                    return String::from_str("CLOSE_WAIT");
                },
                '9' => {
                    return String::from_str("LAST_ACK");
                },
                'A' => {
                    return String::from_str("LISTEN");
                },
                'B' => {
                    return String::from_str("CLOSING");
                },
                _ => {
                    return String::from_str("UNKNOWN");
                },
            }
        }
    }
    String::from_str("UNKNOWN")
}

/// Parses one connection table: every line past the header that has
/// the full complement of fields becomes one record of the given
/// protocol.
pub fn parse_proc_net_file(data: &str, protocol: &str) -> (r: Vec<ConnectionInfo>)
    ensures
        seq_view(r@) == spec_proc_net(data@, protocol@),
{
    let mut r: Vec<ConnectionInfo> = Vec::new();
    if !data.is_ascii() {
        proof {
            assert(seq_view(r@) =~= spec_proc_net(data@, protocol@));
        }
        return r;
    }
    let n = text_len(data);
    if n == 0 {
        proof {
            assert(seq_view(r@) =~= spec_proc_net(data@, protocol@));
        }
        return r;
    }
    let ghost ls = lines_from(data@, 0);
    // the header line ends at the first newline; everything after it
    // is connection lines
    let e0 = scan_for(data, 0, 0);
    proof {
        lemma_scan_stop(data@, 0, nl_hit());
    }
    let mut pos: usize = if e0 >= n {
        n
    } else {
        e0 + 1
    };
    proof {
        if e0 >= n {
            assert(lines_from(data@, e0 + 1 as int) =~= Seq::<Seq<char>>::empty());
        }
        assert(ls =~= seq![ls[0]] + lines_from(data@, pos as int));
    }
    let ghost done: Seq<Seq<char>> = Seq::empty();
    let mut gdone = Ghost(done);
    while pos < n
        invariant
            data.is_ascii(),
            n == data@.len(),
            pos <= n,
            ls == lines_from(data@, 0),
            ls.len() >= 1,
            ls =~= seq![ls[0]] + gdone@ + lines_from(data@, pos as int),
            seq_view(r@) == conns_of_lines(gdone@, protocol@),
        decreases n - pos,
    {
        let e = scan_for(data, pos, 0);
        proof {
            lemma_scan_stop(data@, pos as int, nl_hit());
        }
        let line_end: usize = if e < n && e > pos && data.get_ascii(e - 1) == 13 {
            e - 1
        } else {
            e
        };
        let ghost raw = data@.subrange(pos as int, e as int);
        let ghost lview = if e < n && raw.len() > 0 && raw.last() == '\r' {
            raw.drop_last()
        } else {
            raw
        };
        proof {
            if e < n && e > pos && data@[e - 1 as int] == '\r' {
                assert(raw.last() == '\r');
                assert(lview =~= data@.subrange(pos as int, line_end as int));
            } else {
                assert(lview =~= data@.subrange(pos as int, line_end as int));
            }
            assert(lines_from(data@, pos as int) == seq![lview] + lines_from(
                data@,
                e + 1 as int,
            ));
        }
        let line = data.substring_ascii(pos, line_end);
        let fields = split_fields(line);
        let ghost before = seq_view(r@);
        if fields.len() >= 10 {
            let local_address = parse_address(fields[1]);
            let remote_address = parse_address(fields[2]);
            let state = parse_tcp_state(fields[3]);
            r.push(
                ConnectionInfo {
                    protocol: String::from_str(protocol),
                    local_address,
                    remote_address,
                    state,
                    pid: None,
                    process_name: None,
                },
            );
        }
        proof {
            let prev_done = gdone@;
            gdone@ = gdone@.push(lview);
            assert(gdone@.drop_last() =~= prev_done);
            assert(conns_of_lines(gdone@, protocol@) == conns_of_lines(prev_done, protocol@)
                + match conn_of_line(lview, protocol@) {
                Some(c) => seq![c],
                None => Seq::<ConnectionInfoView>::empty(),
            });
            assert(seq_view(fields@) == fields_of(lview, 0));
            assert(seq_view(r@) =~= conns_of_lines(gdone@, protocol@));
            assert(ls =~= seq![ls[0]] + gdone@ + lines_from(data@, e + 1 as int));
        }
        pos = if e >= n {
            n
        } else {
            e + 1
        };
        proof {
            if e >= n {
                assert(lines_from(data@, e + 1 as int) =~= Seq::<Seq<char>>::empty());
                assert(lines_from(data@, pos as int) =~= Seq::<Seq<char>>::empty());
            }
        }
    }
    proof {
        assert(lines_from(data@, pos as int) =~= Seq::<Seq<char>>::empty());
        assert(ls =~= seq![ls[0]] + gdone@);
        assert(ls.skip(1) =~= gdone@);
        if ls.len() <= 1 {
            assert(gdone@ =~= Seq::<Seq<char>>::empty());
            assert(seq_view(r@) =~= spec_proc_net(data@, protocol@));
        } else {
            assert(seq_view(r@) =~= spec_proc_net(data@, protocol@));
        }
    }
    r
}

/// Parses both kernel connection tables: every record of the TCP
/// table, then every record of the UDP table.
pub fn collect_connections(tcp_data: &str, udp_data: &str) -> (r: Vec<ConnectionInfo>)
    ensures
        seq_view(r@) == spec_proc_net(tcp_data@, "TCP"@) + spec_proc_net(udp_data@, "UDP"@),
{
    let mut r = parse_proc_net_file(tcp_data, "TCP");
    let more = parse_proc_net_file(udp_data, "UDP");
    let mut i: usize = 0;
    let ghost base = seq_view(r@);
    while i < more.len()
        invariant
            i <= more@.len(),
            base == spec_proc_net(tcp_data@, "TCP"@),
            seq_view(more@) == spec_proc_net(udp_data@, "UDP"@),
            seq_view(r@) == base + seq_view(more@).take(i as int),
        decreases more@.len() - i,
    {
        let ghost before = seq_view(r@);
        r.push(more[i].clone());
        proof {
            assert(seq_view(r@) =~= before.push(more@[i as int]@));
            assert(base + seq_view(more@).take(i + 1 as int) =~= before.push(
                more@[i as int]@,
            ));
        }
        i = i + 1;
    }
    proof {
        assert(seq_view(more@).take(more@.len() as int) =~= seq_view(more@));
    }
    r
}

} // verus!
