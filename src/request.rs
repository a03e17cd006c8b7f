//! Request envelopes and their wire text.
use vstd::prelude::*;
use vstd::string::*;

verus! {

/// What a request asks the server to do.
#[derive(Debug, Clone, Copy, PartialEq, Eq, Structural)]
pub enum Opcode {
    DeviceList,
    Attach,
    AppVersion,
    Name,
    Close,
    Info,
    Boot,
    Menu,
    Reset,
    Binary,
    Stream,
    Fence,
    GetAddress,
    PutAddress,
    PutIPS,
    GetFile,
    PutFile,
    List,
    Remove,
    Rename,
    MakeDir,
}

impl Default for Opcode {
    fn default() -> (r: Self)
        ensures
            r == Opcode::DeviceList,
    {
        Opcode::DeviceList
    }
}

/// The address space that a request refers to.
#[derive(Debug, Clone, Copy, PartialEq, Eq, Structural)]
pub enum Space {
    Snes,
    Cmd,
}

impl Default for Space {
    fn default() -> (r: Self)
        ensures
            r == Space::Snes,
    {
        Space::Snes
    }
}

/// How an opcode is named on the wire.
pub open spec fn opcode_wire_name(op: Opcode) -> Seq<char> {
    match op {
        Opcode::DeviceList => "DeviceList"@,
        Opcode::Attach => "Attach"@,
        Opcode::AppVersion => "AppVersion"@,
        Opcode::Name => "Name"@,
        Opcode::Close => "Close"@,
        Opcode::Info => "Info"@,
        Opcode::Boot => "Boot"@,
        Opcode::Menu => "Menu"@,
        Opcode::Reset => "Reset"@,
        Opcode::Binary => "Binary"@,
        Opcode::Stream => "Stream"@,
        Opcode::Fence => "Fence"@,
        Opcode::GetAddress => "GetAddress"@,
        Opcode::PutAddress => "PutAddress"@,
        Opcode::PutIPS => "PutIPS"@,
        Opcode::GetFile => "GetFile"@,
        Opcode::PutFile => "PutFile"@,
        Opcode::List => "List"@,
        Opcode::Remove => "Remove"@,
        Opcode::Rename => "Rename"@,
        Opcode::MakeDir => "MakeDir"@,
    }
}

/// How an address space is named on the wire.
pub open spec fn space_wire_name(space: Space) -> Seq<char> {
    match space {
        Space::Snes => "SNES"@,
        Space::Cmd => "CMD"@,
    }
}

impl Opcode {
    /// The opcode's name on the wire.
    pub fn wire_name(&self) -> (r: &'static str)
        ensures
            r@ == opcode_wire_name(*self),
    {
        match self {
            Opcode::DeviceList => "DeviceList",
            Opcode::Attach => "Attach",
            Opcode::AppVersion => "AppVersion",
            Opcode::Name => "Name",
            Opcode::Close => "Close",
            Opcode::Info => "Info",
            Opcode::Boot => "Boot",
            Opcode::Menu => "Menu",
            Opcode::Reset => "Reset",
            Opcode::Binary => "Binary",
            Opcode::Stream => "Stream",
            Opcode::Fence => "Fence",
            Opcode::GetAddress => "GetAddress",
            Opcode::PutAddress => "PutAddress",
            Opcode::PutIPS => "PutIPS",
            Opcode::GetFile => "GetFile",
            Opcode::PutFile => "PutFile",
            Opcode::List => "List",
            Opcode::Remove => "Remove",
            Opcode::Rename => "Rename",
            Opcode::MakeDir => "MakeDir",
        }
    }
}

impl Space {
    /// The address space's name on the wire.
    pub fn wire_name(&self) -> (r: &'static str)
        ensures
            r@ == space_wire_name(*self),
    {
        match self {
            Space::Snes => "SNES",
            Space::Cmd => "CMD",
        }
    }
}

/// The digit of value `d` (below 16) in uppercase hexadecimal.
pub open spec fn hex_digit(d: nat) -> char {
    seq!['0', '1', '2', '3', '4', '5', '6', '7', '8', '9', 'A', 'B', 'C', 'D', 'E', 'F'][d as int]
}

/// `n` written in uppercase hexadecimal, without prefix or leading zeros.
pub open spec fn upper_hex(n: nat) -> Seq<char>
    decreases n,
{
    if n < 16 {
        seq![hex_digit(n)]
    } else {
        upper_hex(n / 16).push(hex_digit(n % 16))
    }
}

/// The value of a hexadecimal digit, in either case.
pub open spec fn hex_digit_value(c: char) -> int {
    if '0' <= c <= '9' {
        c as int - '0' as int
    } else if 'A' <= c <= 'F' {
        c as int - 'A' as int + 10
    } else if 'a' <= c <= 'f' {
        c as int - 'a' as int + 10
    } else {
        0
    }
}

/// The value of a string of hexadecimal digits, most significant first.
pub open spec fn hex_value(s: Seq<char>) -> int
    decreases s.len(),
{
    if s.len() == 0 {
        0
    } else {
        hex_value(s.drop_last()) * 16 + hex_digit_value(s.last())
    }
}

/// Reading an uppercase hexadecimal rendering back gives the number again.
pub proof fn lemma_hex_round_trip(n: nat)
    ensures
        hex_value(upper_hex(n)) == n,
    decreases n,
{
    let d = n % 16;
    assert(hex_digit_value(hex_digit(d)) == d) by {
        assert(d < 16);
    }
    if n >= 16 {
        lemma_hex_round_trip(n / 16);
        assert(upper_hex(n).drop_last() =~= upper_hex(n / 16));
        assert(upper_hex(n).last() == hex_digit(d));
        assert(n == (n / 16) * 16 + d) by (nonlinear_arith)
            requires
                d == n % 16,
        ;
        assert(hex_value(upper_hex(n)) == hex_value(upper_hex(n / 16)) * 16 + d);
    } else {
        assert(upper_hex(n).drop_last() =~= Seq::<char>::empty());
        assert(hex_value(upper_hex(n)) == hex_value(Seq::<char>::empty()) * 16 + d);
    }
}

/// Hexadecimal digits need no escaping in a JSON string.
pub proof fn lemma_upper_hex_plain(n: nat)
    ensures
        json_plain(upper_hex(n)),
    decreases n,
{
    let d = n % 16;
    assert(json_plain(seq![hex_digit(d)])) by {
        assert(d < 16);
    }
    if n >= 16 {
        lemma_upper_hex_plain(n / 16);
        let h = upper_hex(n);
        assert forall|i: int| 0 <= i < h.len() implies #[trigger] h[i] != '"' && h[i] != '\\'
            && h[i] as int >= 0x20 by {
            if i < h.len() - 1 {
                assert(h[i] == upper_hex(n / 16)[i]);
            } else {
                assert(h[i] == seq![hex_digit(d)][0]);
            }
        }
    }
}

/// Relies on std's `{:X}` formatting of an unsigned integer: the number's
/// uppercase hexadecimal digits, with no prefix and no leading zeros.
#[verifier::external_body]
fn format_upper_hex(n: usize) -> (r: String)
    ensures
        r@ == upper_hex(n as nat),
{
    format!("{:X}", n)
}

/// A request envelope: an opcode, an address space, and the flags and
/// operands that the opcode takes. A list that is `None` is left out of the
/// wire text.
#[derive(Debug, Clone, PartialEq)]
pub struct Request {
    pub opcode: Opcode,
    pub space: Space,
    pub flags: Option<Vec<String>>,
    pub operands: Option<Vec<String>>,
}

/// The contents of an optional list of strings.
pub open spec fn strings_view(v: Option<Vec<String>>) -> Option<Seq<Seq<char>>> {
    match v {
        Some(items) => Some(items@.map_values(|s: String| s@)),
        None => None,
    }
}

impl Request {
    /// Asks for the list of devices.
    pub fn device_list() -> (r: Self)
        ensures
            r.opcode == Opcode::DeviceList,
            r.space == Space::Snes,
            r.flags is None,
            r.operands is None,
    {
        Request { opcode: Opcode::DeviceList, space: Space::Snes, flags: None, operands: None }
    }

    /// Attaches the connection to `device`.
    pub fn attach(device: &str) -> (r: Self)
        ensures
            r.opcode == Opcode::Attach,
            r.space == Space::Snes,
            r.flags is None,
            strings_view(r.operands) == Some(seq![device@]),
    {
        let operands = vec![String::from_str(device)];
        let r = Request {
            opcode: Opcode::Attach,
            space: Space::Snes,
            flags: None,
            operands: Some(operands),
        };
        assert(strings_view(r.operands).unwrap() =~= seq![device@]);
        r
    }

    /// Asks for the attached device's information.
    pub fn info() -> (r: Self)
        ensures
            r.opcode == Opcode::Info,
            r.space == Space::Snes,
            r.flags is None,
            r.operands is None,
    {
        Request { opcode: Opcode::Info, space: Space::Snes, flags: None, operands: None }
    }

    /// Reads `length` bytes of device memory from `offset`; both operands are
    /// written in uppercase hexadecimal.
    pub fn get_address(offset: usize, length: usize) -> (r: Self)
        ensures
            r.opcode == Opcode::GetAddress,
            r.space == Space::Snes,
            r.flags is None,
            strings_view(r.operands) == Some(
                seq![upper_hex(offset as nat), upper_hex(length as nat)],
            ),
            optional_plain(strings_view(r.operands)),
    {
        let operands = vec![format_upper_hex(offset), format_upper_hex(length)];
        let r = Request {
            opcode: Opcode::GetAddress,
            space: Space::Snes,
            flags: None,
            operands: Some(operands),
        };
        assert(strings_view(r.operands).unwrap() =~= seq![
            upper_hex(offset as nat),
            upper_hex(length as nat),
        ]);
        proof {
            lemma_upper_hex_plain(offset as nat);
            lemma_upper_hex_plain(length as nat);
        }
        r
    }
}

/// What `serde_json` writes for a string: the string quoted and escaped as
/// JSON.
pub uninterp spec fn json_string_of(s: Seq<char>) -> Seq<char>;

/// Whether `s` holds no character that JSON strings escape: no quote, no
/// backslash and no control character below U+0020.
pub open spec fn json_plain(s: Seq<char>) -> bool {
    forall|i: int| 0 <= i < s.len() ==> #[trigger] s[i] != '"' && s[i] != '\\' && s[i] as int >= 0x20
}

/// `s` between two double quotes.
pub open spec fn quoted(s: Seq<char>) -> Seq<char> {
    seq!['"'] + s + seq!['"']
}

/// Relies on `serde_json::to_string` applied to a `str`: it writes into a
/// `Vec`, which cannot fail, the string between two quotes with only quotes,
/// backslashes and control characters escaped.
#[verifier::external_body]
fn json_quote(s: &str) -> (r: Result<String, serde_json::Error>)
    ensures
        r is Ok,
        r matches Ok(t) ==> t@ == json_string_of(s@),
        r matches Ok(t) ==> (json_plain(s@) ==> t@ == quoted(s@)),
{
    serde_json::to_string(s)
}

/// The items of a list as JSON strings, separated by commas.
pub open spec fn quoted_items(items: Seq<Seq<char>>) -> Seq<char>
    decreases items.len(),
{
    if items.len() == 0 {
        Seq::empty()
    } else if items.len() == 1 {
        json_string_of(items[0])
    } else {
        quoted_items(items.drop_last()) + ","@ + json_string_of(items.last())
    }
}

/// The items of a list between quotes, separated by commas: how they are
/// written when none needs escaping.
pub open spec fn plain_items(items: Seq<Seq<char>>) -> Seq<char>
    decreases items.len(),
{
    if items.len() == 0 {
        Seq::empty()
    } else if items.len() == 1 {
        quoted(items[0])
    } else {
        plain_items(items.drop_last()) + ","@ + quoted(items.last())
    }
}

/// Whether no item of a list needs escaping.
pub open spec fn all_plain(items: Seq<Seq<char>>) -> bool {
    forall|i: int| 0 <= i < items.len() ==> json_plain(#[trigger] items[i])
}

/// Whether no item of an optional list needs escaping.
pub open spec fn optional_plain(items: Option<Seq<Seq<char>>>) -> bool {
    match items {
        Some(v) => all_plain(v),
        None => true,
    }
}

/// A list of strings as a JSON array.
pub open spec fn json_list(items: Seq<Seq<char>>) -> Seq<char> {
    "["@ + quoted_items(items) + "]"@
}

/// An optional list as a JSON object member named `key`, or nothing.
pub open spec fn optional_member(key: Seq<char>, items: Option<Seq<Seq<char>>>) -> Seq<char> {
    match items {
        Some(v) => key + json_list(v),
        None => Seq::empty(),
    }
}

/// An optional list as a JSON object member named `key`, written with plain
/// quotes, or nothing.
pub open spec fn plain_member(key: Seq<char>, items: Option<Seq<Seq<char>>>) -> Seq<char> {
    match items {
        Some(v) => key + "["@ + plain_items(v) + "]"@,
        None => Seq::empty(),
    }
}

/// The wire text of a request envelope whose flags and operands need no
/// escaping.
pub open spec fn plain_envelope_text(r: Request) -> Seq<char> {
    "{\"Opcode\":\""@ + opcode_wire_name(r.opcode) + "\",\"Space\":\""@ + space_wire_name(r.space)
        + "\""@ + plain_member(",\"Flags\":"@, strings_view(r.flags)) + plain_member(
        ",\"Operands\":"@,
        strings_view(r.operands),
    ) + "}"@
}

/// The wire text of a request envelope, given how the codec writes strings.
pub open spec fn envelope_text(r: Request) -> Seq<char> {
    "{\"Opcode\":\""@ + opcode_wire_name(r.opcode) + "\",\"Space\":\""@ + space_wire_name(r.space)
        + "\""@ + optional_member(",\"Flags\":"@, strings_view(r.flags)) + optional_member(
        ",\"Operands\":"@,
        strings_view(r.operands),
    ) + "}"@
}

/// Appends `items` as a JSON array to `out`.
fn append_json_list(out: &mut String, items: &Vec<String>)
    ensures
        final(out)@ == old(out)@ + json_list(items@.map_values(|s: String| s@)),
        all_plain(items@.map_values(|s: String| s@)) ==> final(out)@ == old(out)@ + "["@
            + plain_items(items@.map_values(|s: String| s@)) + "]"@,
{
    let ghost views = items@.map_values(|s: String| s@);
    out.append("[");
    let ghost base = out@;
    let mut i: usize = 0;
    while i < items.len()
        invariant
            i <= items.len(),
            views == items@.map_values(|s: String| s@),
            out@ == base + quoted_items(views.take(i as int)),
            all_plain(views) ==> out@ == base + plain_items(views.take(i as int)),
        decreases items.len() - i,
    {
        if i > 0 {
            out.append(",");
        }
        match json_quote(items[i].as_str()) {
            Ok(q) => {
                out.append(q.as_str());
            },
            // never taken: quoting a string does not fail
            Err(_) => {},
        }
        assert(views.take(i + 1)[i as int] == views[i as int]);
        assert(views.take(i + 1).drop_last() =~= views.take(i as int));
        i = i + 1;
    }
    assert(views.take(i as int) =~= views);
    out.append("]");
}

impl Request {
    /// The envelope's wire text: a JSON object whose members are the opcode,
    /// the address space, and the flags and operands where they are present.
    /// Writing never fails: the `Result` is that of the codec.
    pub fn to_json(&self) -> (r: Result<String, serde_json::Error>)
        ensures
            r matches Ok(t) && t@ == envelope_text(*self),
            optional_plain(strings_view(self.flags)) && optional_plain(strings_view(self.operands))
                ==> (r matches Ok(t) && t@ == plain_envelope_text(*self)),
    {
        let mut out = String::from_str("{\"Opcode\":\"");
        out.append(self.opcode.wire_name());
        out.append("\",\"Space\":\"");
        out.append(self.space.wire_name());
        out.append("\"");
        let ghost head = out@;
        match &self.flags {
            Some(flags) => {
                out.append(",\"Flags\":");
                append_json_list(&mut out, flags);
            },
            None => {},
        }
        let ghost middle = out@;
        assert(middle == head + optional_member(",\"Flags\":"@, strings_view(self.flags)));
        assert(optional_plain(strings_view(self.flags)) ==> middle == head + plain_member(
            ",\"Flags\":"@,
            strings_view(self.flags),
        ));
        match &self.operands {
            Some(operands) => {
                out.append(",\"Operands\":");
                append_json_list(&mut out, operands);
            },
            None => {},
        }
        out.append("}");
        assert(out@ =~= envelope_text(*self));
        assert(optional_plain(strings_view(self.flags)) && optional_plain(strings_view(self.operands))
            ==> out@ =~= plain_envelope_text(*self));
        Ok(out)
    }
}

/// The operands of a memory read request, read back as hexadecimal numbers,
/// are the offset and the length that built it.
pub proof fn lemma_get_address_operands_round_trip(offset: usize, length: usize, ops: Seq<Seq<char>>)
    requires
        ops == seq![upper_hex(offset as nat), upper_hex(length as nat)],
    ensures
        hex_value(ops[0]) == offset,
        hex_value(ops[1]) == length,
{
    lemma_hex_round_trip(offset as nat);
    lemma_hex_round_trip(length as nat);
}

} // verus!
