use crate::sorting::{supported_extension_list, supported_extensions};
use crate::text::{contains_chars, contains_seq, str_eq, to_chars};
use vstd::prelude::*;
use vstd::string::*;

verus! {

// ---------------------------------------------------------------------------
// Platform identification
// ---------------------------------------------------------------------------

/// Cross-platform platform information.
///
/// The operating system is named as `std::env::consts::OS` names it ("windows", "linux",
/// "macos", ...); the caller hands that name in.
pub struct PlatformInfo;

/// The display name of a platform, for the operating systems the viewer is built for.
pub open spec fn platform_name_for(os: Seq<char>) -> Option<Seq<char>> {
    if os == "windows"@ {
        Some("Windows"@)
    } else if os == "linux"@ {
        Some("Linux"@)
    } else if os == "macos"@ {
        Some("macOS"@)
    } else {
        None
    }
}

impl PlatformInfo {
    /// The platform name: "Windows", "Linux" or "macOS"; none for another operating system.
    pub fn name(os: &str) -> (r: Option<&'static str>)
        ensures
            match r {
                Some(n) => platform_name_for(os@) == Some(n@),
                None => platform_name_for(os@) is None,
            },
    {
        if str_eq(os, "windows") {
            Some("Windows")
        } else if str_eq(os, "linux") {
            Some("Linux")
        } else if str_eq(os, "macos") {
            Some("macOS")
        } else {
            None
        }
    }

    /// Whether the operating system is Windows.
    pub fn is_windows(os: &str) -> (r: bool)
        ensures
            r == (os@ == "windows"@),
    {
        str_eq(os, "windows")
    }
}

// ---------------------------------------------------------------------------
// Text rules shared by the Windows integration
// ---------------------------------------------------------------------------

/// The characters with the Unicode `White_Space` property, which `char::is_whitespace`,
/// `str::split_whitespace` and `str::trim` go by.
pub open spec fn is_white_space(c: char) -> bool {
    ('\u{9}' <= c && c <= '\u{d}') || c == ' ' || c == '\u{85}' || c == '\u{a0}' || c
        == '\u{1680}' || ('\u{2000}' <= c && c <= '\u{200a}') || c == '\u{2028}' || c
        == '\u{2029}' || c == '\u{202f}' || c == '\u{205f}' || c == '\u{3000}'
}

/// Whether a character is white space.
pub fn is_white_space_char(c: char) -> (r: bool)
    ensures
        r == is_white_space(c),
{
    ('\u{9}' <= c && c <= '\u{d}') || c == ' ' || c == '\u{85}' || c == '\u{a0}' || c
        == '\u{1680}' || ('\u{2000}' <= c && c <= '\u{200a}') || c == '\u{2028}' || c
        == '\u{2029}' || c == '\u{202f}' || c == '\u{205f}' || c == '\u{3000}'
}

/// The value of a run of decimal digits.
pub open spec fn digits_value(d: Seq<char>) -> int
    decreases d.len(),
{
    if d.len() == 0 {
        0
    } else {
        digits_value(d.drop_last()) * 10 + (d.last() as int - '0' as int)
    }
}

/// Every character is an ASCII decimal digit.
pub open spec fn all_digits(d: Seq<char>) -> bool {
    forall|i: int| 0 <= i < d.len() ==> '0' <= #[trigger] d[i] && d[i] <= '9'
}

/// What `str::parse::<u32>` accepts: an optional `+`, then one or more decimal digits whose
/// value fits in 32 bits.
pub open spec fn parse_u32(t: Seq<char>) -> Option<u32> {
    let d = if t.len() > 0 && t[0] == '+' {
        t.drop_first()
    } else {
        t
    };
    if d.len() > 0 && all_digits(d) && digits_value(d) <= u32::MAX {
        Some(digits_value(d) as u32)
    } else {
        None
    }
}

proof fn lemma_digits_value_nonneg(d: Seq<char>)
    requires
        all_digits(d),
    ensures
        digits_value(d) >= 0,
    decreases d.len(),
{
    if d.len() > 0 {
        assert(all_digits(d.drop_last()));
        lemma_digits_value_nonneg(d.drop_last());
    }
}

proof fn lemma_digits_value_grows(d: Seq<char>, i: int, j: int)
    requires
        all_digits(d),
        0 <= i <= j <= d.len(),
    ensures
        digits_value(d.subrange(0, i)) <= digits_value(d.subrange(0, j)),
    decreases j - i,
{
    if i < j {
        lemma_digits_value_grows(d, i, j - 1);
        let pre = d.subrange(0, j);
        assert(pre.drop_last() =~= d.subrange(0, j - 1));
        assert(all_digits(d.subrange(0, j - 1)));
        lemma_digits_value_nonneg(d.subrange(0, j - 1));
    }
}

/// `str::parse::<u32>` on a text.
pub fn parse_u32_text(t: &str) -> (r: Option<u32>)
    ensures
        r == parse_u32(t@),
{
    let c = to_chars(t);
    assert(c@.subrange(0, c@.len() as int) =~= c@);
    parse_u32_chars(&c, 0, c.len())
}

/// `str::parse::<u32>` on the characters `t[from..to]`.
fn parse_u32_chars(t: &Vec<char>, from: usize, to: usize) -> (r: Option<u32>)
    requires
        from <= to <= t.len(),
    ensures
        r == parse_u32(t@.subrange(from as int, to as int)),
{
    let ghost s = t@.subrange(from as int, to as int);
    let mut start = from;
    if from < to && t[from] == '+' {
        start = from + 1;
    }
    let ghost d = t@.subrange(start as int, to as int);
    assert(d =~= (if s.len() > 0 && s[0] == '+' { s.drop_first() } else { s }));
    assert(parse_u32(s) == (if d.len() > 0 && all_digits(d) && digits_value(d) <= u32::MAX {
        Some(digits_value(d) as u32)
    } else {
        None
    }));
    if start == to {
        return None;
    }
    let mut k = start;
    while k < to
        invariant
            start <= k <= to <= t.len(),
            d == t@.subrange(start as int, to as int),
            s == t@.subrange(from as int, to as int),
            parse_u32(s) == (if d.len() > 0 && all_digits(d) && digits_value(d) <= u32::MAX {
                Some(digits_value(d) as u32)
            } else {
                None
            }),
            forall|i: int| start <= i < k ==> '0' <= #[trigger] t@[i] && t@[i] <= '9',
        decreases to - k,
    {
        if t[k] < '0' || t[k] > '9' {
            assert(d[k - start] == t@[k as int]);
            return None;
        }
        k = k + 1;
    }
    assert(all_digits(d)) by {
        assert forall|i: int| 0 <= i < d.len() implies '0' <= #[trigger] d[i] && d[i] <= '9' by {
            assert(d[i] == t@[start + i]);
        }
    }
    let mut v: u64 = 0;
    let mut k = start;
    while k < to
        invariant
            start <= k <= to <= t.len(),
            d == t@.subrange(start as int, to as int),
            all_digits(d),
            d.len() > 0,
            s == t@.subrange(from as int, to as int),
            parse_u32(s) == (if digits_value(d) <= u32::MAX {
                Some(digits_value(d) as u32)
            } else {
                None
            }),
            v == digits_value(d.subrange(0, k - start)),
            v <= u32::MAX,
        decreases to - k,
    {
        let ghost i = k - start;
        assert(d[i] == t@[k as int]);
        let digit = (t[k] as u32 - '0' as u32) as u64;
        assert(d.subrange(0, i + 1).drop_last() =~= d.subrange(0, i));
        let nv = v * 10 + digit;
        if nv > 0xffff_ffffu64 {
            proof {
                lemma_digits_value_grows(d, i + 1, d.len() as int);
                assert(d.subrange(0, d.len() as int) =~= d);
            }
            return None;
        }
        v = nv;
        k = k + 1;
    }
    assert(d.subrange(0, d.len() as int) =~= d);
    Some(v as u32)
}

/// The first index at or after `i` that holds a `.`, or the length when there is none.
pub open spec fn first_dot_from(s: Seq<char>, i: int) -> int
    decreases s.len() - i,
{
    if i >= s.len() {
        s.len() as int
    } else if s[i] == '.' {
        i
    } else {
        first_dot_from(s, i + 1)
    }
}

/// The end of the run of non-white-space characters that holds index `i`.
pub open spec fn token_end(s: Seq<char>, i: int) -> int
    decreases s.len() - i,
{
    if i >= s.len() {
        s.len() as int
    } else if is_white_space(s[i]) {
        i
    } else {
        token_end(s, i + 1)
    }
}

/// The text with every trailing `]` taken off.
pub open spec fn trim_closing_brackets(t: Seq<char>) -> Seq<char>
    decreases t.len(),
{
    if t.len() > 0 && t.last() == ']' {
        trim_closing_brackets(t.drop_last())
    } else {
        t
    }
}

/// The build number that the output of `ver` shows: of the first white-space separated word
/// that holds a `.` (the version, as in `10.0.22631.4169]`), its third `.`-separated part,
/// with trailing `]` taken off, read as a number; 0 when there is no such word, the word has
/// fewer than three parts, or the part is no number.
pub open spec fn build_from_ver_output(s: Seq<char>) -> u32 {
    let p = first_dot_from(s, 0);
    if p >= s.len() {
        0
    } else {
        let e = token_end(s, p);
        let q = first_dot_from(s, p + 1);
        if q >= e {
            0
        } else {
            let d = first_dot_from(s, q + 1);
            let z = if d < e { d } else { e };
            match parse_u32(trim_closing_brackets(s.subrange(q + 1, z))) {
                Some(v) => v,
                None => 0,
            }
        }
    }
}

/// Windows utility functions: the Windows build number, read from what `cmd /c ver` printed.
pub fn windows_build(ver_output: &str) -> (r: u32)
    ensures
        r == build_from_ver_output(ver_output@),
{
    let s = to_chars(ver_output);
    let n = s.len();
    let mut p: usize = 0;
    while p < n && s[p] != '.'
        invariant
            n == s@.len(),
            p <= n,
            first_dot_from(s@, 0) == first_dot_from(s@, p as int),
        decreases n - p,
    {
        p = p + 1;
    }
    if p >= n {
        return 0;
    }
    let mut e: usize = p;
    while e < n && !is_white_space_char(s[e])
        invariant
            n == s@.len(),
            p <= e <= n,
            token_end(s@, p as int) == token_end(s@, e as int),
        decreases n - e,
    {
        e = e + 1;
    }
    let q = next_dot(&s, p + 1);
    if q >= e {
        return 0;
    }
    let d = next_dot(&s, q + 1);
    let z = if d < e { d } else { e };
    let a = q + 1;
    let mut b: usize = z;
    while b > a && s[b - 1] == ']'
        invariant
            a <= b <= z <= n,
            n == s@.len(),
            trim_closing_brackets(s@.subrange(a as int, z as int)) == trim_closing_brackets(
                s@.subrange(a as int, b as int),
            ),
        decreases b,
    {
        assert(s@.subrange(a as int, b as int).drop_last() =~= s@.subrange(a as int, b - 1));
        b = b - 1;
    }
    assert(b > a ==> s@.subrange(a as int, b as int).last() == s@[b - 1]);
    match parse_u32_chars(&s, a, b) {
        Some(v) => v,
        None => 0,
    }
}

/// The first index at or after `from` that holds a `.`, or the length when there is none.
fn next_dot(s: &Vec<char>, from: usize) -> (r: usize)
    requires
        from <= s@.len(),
    ensures
        r == first_dot_from(s@, from as int),
        from <= r <= s@.len(),
{
    let n = s.len();
    let mut i = from;
    while i < n && s[i] != '.'
        invariant
            n == s@.len(),
            from <= i <= n,
            first_dot_from(s@, from as int) == first_dot_from(s@, i as int),
        decreases n - i,
    {
        i = i + 1;
    }
    i
}

/// Whether the output of `cmd /c ver` shows Windows 11 (build 22000 or later).
pub fn is_windows_11(ver_output: &str) -> (r: bool)
    ensures
        r == (build_from_ver_output(ver_output@) >= 22000),
{
    windows_build(ver_output) >= 22000
}

// ---------------------------------------------------------------------------
// Registry commands
// ---------------------------------------------------------------------------

/// The operation a `reg.exe` command performs.
#[derive(Debug, Clone, Copy, PartialEq, Eq, Structural)]
pub enum RegistryOperation {
    Add,
    Delete,
    Query,
}

impl RegistryOperation {
    pub open spec fn spec_word(self) -> Seq<char> {
        match self {
            RegistryOperation::Add => "add"@,
            RegistryOperation::Delete => "delete"@,
            RegistryOperation::Query => "query"@,
        }
    }

    /// The word `reg.exe` takes for the operation.
    pub fn word(&self) -> (r: &'static str)
        ensures
            r@ == self.spec_word(),
    {
        match self {
            RegistryOperation::Add => "add",
            RegistryOperation::Delete => "delete",
            RegistryOperation::Query => "query",
        }
    }
}

/// One `reg.exe` command: the operation, its arguments, and whether its failure ends the
/// sequence of commands it belongs to.
pub struct RegistryCommand {
    pub operation: RegistryOperation,
    pub args: Vec<String>,
    pub required: bool,
}

/// The texts of a sequence of strings.
pub open spec fn texts(v: Seq<String>) -> Seq<Seq<char>> {
    v.map_values(|s: String| s@)
}

/// The texts of a sequence of string slices.
pub open spec fn str_texts(v: Seq<&str>) -> Seq<Seq<char>> {
    v.map_values(|s: &str| s@)
}

/// A registry command in plain values: operation, arguments, whether it is required.
pub type CommandShape = (RegistryOperation, Seq<Seq<char>>, bool);

pub open spec fn command_shape(c: RegistryCommand) -> CommandShape {
    (c.operation, texts(c.args@), c.required)
}

pub open spec fn shapes_of(v: Seq<RegistryCommand>) -> Seq<CommandShape> {
    v.map_values(|c: RegistryCommand| command_shape(c))
}

/// Owned copies of string slices.
fn owned_texts(parts: &[&str]) -> (r: Vec<String>)
    ensures
        texts(r@) == str_texts(parts@),
{
    let mut r: Vec<String> = Vec::new();
    let mut i: usize = 0;
    while i < parts.len()
        invariant
            i <= parts.len(),
            texts(r@) == str_texts(parts@.subrange(0, i as int)),
        decreases parts.len() - i,
    {
        let ghost before = r@;
        r.push(String::from_str(parts[i]));
        assert(texts(r@) =~= texts(before).push(parts@[i as int]@));
        assert(str_texts(parts@.subrange(0, i + 1)) =~= str_texts(parts@.subrange(0, i as int)).push(
            parts@[i as int]@,
        ));
        i = i + 1;
    }
    assert(parts@.subrange(0, parts@.len() as int) =~= parts@);
    r
}

impl RegistryCommand {
    /// The words handed to `reg.exe`: the operation, then the arguments.
    pub fn command_line(&self) -> (r: Vec<String>)
        ensures
            texts(r@) == seq![self.operation.spec_word()] + texts(self.args@),
    {
        let mut r: Vec<String> = Vec::new();
        r.push(String::from_str(self.operation.word()));
        let mut i: usize = 0;
        while i < self.args.len()
            invariant
                i <= self.args.len(),
                texts(r@) == seq![self.operation.spec_word()] + texts(self.args@.subrange(0, i as int)),
            decreases self.args.len() - i,
        {
            let ghost before = r@;
            r.push(self.args[i].clone());
            assert(texts(r@) =~= texts(before).push(self.args@[i as int]@));
            assert(texts(self.args@.subrange(0, i + 1)) =~= texts(self.args@.subrange(0, i as int)).push(
                self.args@[i as int]@,
            ));
            i = i + 1;
        }
        assert(self.args@.subrange(0, self.args@.len() as int) =~= self.args@);
        r
    }
}

/// `reg add <key> /ve /t REG_SZ /d <value> /f`: set the default value of a key.
pub open spec fn default_value_args(key: Seq<char>, value: Seq<char>) -> Seq<Seq<char>> {
    seq![key, "/ve"@, "/t"@, "REG_SZ"@, "/d"@, value, "/f"@]
}

/// `reg add <key> /v <name> /t REG_SZ /d <value> /f`: set a named value of a key.
pub open spec fn named_value_args(key: Seq<char>, name: Seq<char>, value: Seq<char>) -> Seq<
    Seq<char>,
> {
    seq![key, "/v"@, name, "/t"@, "REG_SZ"@, "/d"@, value, "/f"@]
}

fn default_value_command(key: &str, value: &str, required: bool) -> (r: RegistryCommand)
    ensures
        command_shape(r) == (RegistryOperation::Add, default_value_args(key@, value@), required),
{
    let args = owned_texts(&[key, "/ve", "/t", "REG_SZ", "/d", value, "/f"]);
    RegistryCommand { operation: RegistryOperation::Add, args, required }
}

fn named_value_command(key: &str, name: &str, value: &str, required: bool) -> (r: RegistryCommand)
    ensures
        command_shape(r) == (RegistryOperation::Add, named_value_args(key@, name@, value@), required),
{
    let args = owned_texts(&[key, "/v", name, "/t", "REG_SZ", "/d", value, "/f"]);
    RegistryCommand { operation: RegistryOperation::Add, args, required }
}

fn plain_command(operation: RegistryOperation, parts: &[&str], required: bool) -> (r: RegistryCommand)
    ensures
        command_shape(r) == (operation, str_texts(parts@), required),
{
    RegistryCommand { operation, args: owned_texts(parts), required }
}

/// Text joined from two pieces.
fn joined(a: &str, b: &str) -> (r: String)
    ensures
        r@ == a@ + b@,
{
    String::from_str(a).concat(b)
}

/// Text joined from three pieces.
fn joined3(a: &str, b: &str, c: &str) -> (r: String)
    ensures
        r@ == a@ + b@ + c@,
{
    String::from_str(a).concat(b).concat(c)
}

// ---------------------------------------------------------------------------
// What the Windows integration writes to the registry
// ---------------------------------------------------------------------------

/// The image file extensions the viewer registers itself for: every supported extension,
/// with a leading `.`.
pub open spec fn registered_format_list() -> Seq<Seq<char>> {
    supported_extension_list().map_values(|e: Seq<char>| seq!['.'] + e)
}

/// Every supported image extension is registered, with a leading `.`, and every registered
/// extension is a supported one.
pub proof fn law_every_supported_format_is_registered(e: Seq<char>)
    ensures
        supported_extension_list().contains(e) ==> registered_format_list().contains(seq!['.'] + e),
        registered_format_list().contains(seq!['.'] + e) ==> supported_extension_list().contains(e),
{
    let sup = supported_extension_list();
    let reg = registered_format_list();
    if sup.contains(e) {
        let i = choose|i: int| 0 <= i < sup.len() && sup[i] == e;
        assert(reg[i] == seq!['.'] + e);
    }
    if reg.contains(seq!['.'] + e) {
        let i = choose|i: int| 0 <= i < reg.len() && reg[i] == seq!['.'] + e;
        assert(reg[i] == seq!['.'] + sup[i]);
        assert((seq!['.'] + sup[i]).drop_first() =~= sup[i]);
        assert((seq!['.'] + e).drop_first() =~= e);
    }
}

/// The MIME type recorded for an extension.
pub open spec fn content_type_for(ext: Seq<char>) -> Seq<char> {
    if ext == ".png"@ {
        "image/png"@
    } else if ext == ".jpg"@ || ext == ".jpeg"@ {
        "image/jpeg"@
    } else if ext == ".gif"@ {
        "image/gif"@
    } else if ext == ".bmp"@ {
        "image/bmp"@
    } else if ext == ".tiff"@ || ext == ".tif"@ {
        "image/tiff"@
    } else if ext == ".webp"@ {
        "image/webp"@
    } else if ext == ".ico"@ {
        "image/x-icon"@
    } else if ext == ".avif"@ {
        "image/avif"@
    } else if ext == ".heic"@ || ext == ".heif"@ {
        "image/heic"@
    } else if ext == ".svg"@ {
        "image/svg+xml"@
    } else {
        "image/unknown"@
    }
}

/// The MIME type recorded for an extension.
pub fn content_type(ext: &str) -> (r: &'static str)
    ensures
        r@ == content_type_for(ext@),
{
    if str_eq(ext, ".png") {
        "image/png"
    } else if str_eq(ext, ".jpg") || str_eq(ext, ".jpeg") {
        "image/jpeg"
    } else if str_eq(ext, ".gif") {
        "image/gif"
    } else if str_eq(ext, ".bmp") {
        "image/bmp"
    } else if str_eq(ext, ".tiff") || str_eq(ext, ".tif") {
        "image/tiff"
    } else if str_eq(ext, ".webp") {
        "image/webp"
    } else if str_eq(ext, ".ico") {
        "image/x-icon"
    } else if str_eq(ext, ".avif") {
        "image/avif"
    } else if str_eq(ext, ".heic") || str_eq(ext, ".heif") {
        "image/heic"
    } else if str_eq(ext, ".svg") {
        "image/svg+xml"
    } else {
        "image/unknown"
    }
}

/// The command that opens a file with the viewer: `"<app>" "%1"`.
pub open spec fn open_command_text(app: Seq<char>) -> Seq<char> {
    "\""@ + app + "\" \"%1\""@
}

/// The ProgID, its icon and verbs, and the folder context-menu entry; all required.
pub open spec fn progid_commands(app: Seq<char>) -> Seq<CommandShape> {
    seq![
        (RegistryOperation::Add, default_value_args("HKCU\\Software\\Classes\\Glint.ImageViewer"@, "Glint Image Viewer"@), true),
        (RegistryOperation::Add, default_value_args("HKCU\\Software\\Classes\\Glint.ImageViewer\\DefaultIcon"@, app + ",1"@), true),
        (RegistryOperation::Add, default_value_args("HKCU\\Software\\Classes\\Glint.ImageViewer\\shell\\open\\command"@, open_command_text(app)), true),
        (RegistryOperation::Add, default_value_args("HKCU\\Software\\Classes\\Glint.ImageViewer\\shell\\edit\\command"@, open_command_text(app)), true),
        (RegistryOperation::Add, default_value_args("HKCU\\Software\\Classes\\Glint.ImageViewer\\shell\\slideshow"@, "Start &slideshow"@), true),
        (RegistryOperation::Add, default_value_args("HKCU\\Software\\Classes\\Glint.ImageViewer\\shell\\slideshow\\command"@, "\""@ + app + "\" --slideshow \"%1\""@), true),
        (RegistryOperation::Add, default_value_args("HKCU\\Software\\Classes\\Directory\\shell\\Glint"@, "Open with &Glint"@), true),
        (RegistryOperation::Add, default_value_args("HKCU\\Software\\Classes\\Directory\\shell\\Glint\\command"@, open_command_text(app)), true),
    ]
}

/// The key that holds an extension's settings.
pub open spec fn extension_key(ext: Seq<char>) -> Seq<char> {
    "HKCU\\Software\\Classes\\"@ + ext
}

/// The key that lists the viewer under "Open with" for an extension.
pub open spec fn open_with_key(ext: Seq<char>) -> Seq<char> {
    "HKCU\\Software\\Classes\\"@ + ext + "\\OpenWithList\\glint.exe"@
}

/// The commands that register one extension: its ProgID and perceived type (required), its
/// content type and "Open with" entry (failures ignored).
pub open spec fn format_commands(ext: Seq<char>) -> Seq<CommandShape> {
    seq![
        (RegistryOperation::Add, default_value_args(extension_key(ext), "Glint.ImageViewer"@), true),
        (RegistryOperation::Add, named_value_args(extension_key(ext), "PerceivedType"@, "image"@), true),
        (RegistryOperation::Add, named_value_args(extension_key(ext), "Content Type"@, content_type_for(ext)), false),
        (RegistryOperation::Add, seq![open_with_key(ext), "/ve"@, "/t"@, "REG_SZ"@, "/f"@], false),
    ]
}

/// The commands that register each extension in turn.
pub open spec fn all_format_commands(exts: Seq<Seq<char>>) -> Seq<CommandShape>
    decreases exts.len(),
{
    if exts.len() == 0 {
        Seq::empty()
    } else {
        all_format_commands(exts.drop_last()) + format_commands(exts.last())
    }
}

/// The entries in the Default Programs system; all required.
pub open spec fn capability_commands() -> Seq<CommandShape> {
    seq![
        (RegistryOperation::Add, named_value_args("HKCU\\Software\\Glint\\Capabilities"@, "ApplicationName"@, "Glint"@), true),
        (RegistryOperation::Add, named_value_args("HKCU\\Software\\Glint\\Capabilities"@, "ApplicationDescription"@, "A fast, native image viewer and lightweight editor for Windows"@), true),
        (RegistryOperation::Add, named_value_args("HKCU\\Software\\RegisteredApplications"@, "Glint"@, "Software\\Glint\\Capabilities"@), true),
    ]
}

/// Everything that makes the viewer an available handler for the registered formats.
pub open spec fn registration_commands(app: Seq<char>) -> Seq<CommandShape> {
    progid_commands(app) + all_format_commands(registered_format_list()) + capability_commands()
}

/// The key under which programs start at logon.
pub open spec fn run_key() -> Seq<char> {
    "HKCU\\Software\\Microsoft\\Windows\\CurrentVersion\\Run"@
}

/// Enabling adds the `--background` start entry; disabling deletes it.
pub open spec fn auto_start_commands(enable: bool, app: Seq<char>) -> Seq<CommandShape> {
    if enable {
        seq![(RegistryOperation::Add, named_value_args(run_key(), "Glint"@, "\""@ + app + "\" --background"@), true)]
    } else {
        seq![(RegistryOperation::Delete, seq![run_key(), "/v"@, "Glint"@, "/f"@], true)]
    }
}

/// The deletions for one extension: its default value and its "Open with" entry.
pub open spec fn format_removal_commands(ext: Seq<char>) -> Seq<CommandShape> {
    seq![
        (RegistryOperation::Delete, seq![extension_key(ext), "/ve"@, "/f"@], false),
        (RegistryOperation::Delete, seq![open_with_key(ext), "/f"@], false),
    ]
}

pub open spec fn all_format_removal_commands(exts: Seq<Seq<char>>) -> Seq<CommandShape>
    decreases exts.len(),
{
    if exts.len() == 0 {
        Seq::empty()
    } else {
        all_format_removal_commands(exts.drop_last()) + format_removal_commands(exts.last())
    }
}

/// Everything the viewer removes when it gives up its associations; no failure is fatal.
pub open spec fn unregistration_commands() -> Seq<CommandShape> {
    seq![(RegistryOperation::Delete, seq!["HKCU\\Software\\Classes\\Glint.ImageViewer"@, "/f"@], false)]
        + all_format_removal_commands(registered_format_list()) + seq![
        (RegistryOperation::Delete, seq!["HKCU\\Software\\RegisteredApplications"@, "/v"@, "Glint"@, "/f"@], false),
        (RegistryOperation::Delete, seq!["HKCU\\Software\\Glint"@, "/f"@], false),
        (RegistryOperation::Delete, seq!["HKCU\\Software\\Classes\\Directory\\shell\\Glint"@, "/f"@], false),
    ]
}

// ---------------------------------------------------------------------------
// Running a sequence of registry commands
// ---------------------------------------------------------------------------

/// How one command ended.
pub enum CommandOutcome {
    /// It ran and reported success.
    Succeeded,
    /// It could not be started.
    NotStarted,
    /// It ran and reported failure, with its exit code (if any) and what it wrote to stderr.
    Failed { code: Option<i32>, stderr: String },
}

/// Why a required registry command failed.
pub enum RegistryError {
    /// `reg` could not be started.
    NotStarted { operation: RegistryOperation },
    /// `reg` failed and wrote nothing to stderr.
    ExitCode { operation: RegistryOperation, code: Option<i32> },
    /// `reg` failed with this message (stderr with surrounding white space trimmed).
    Message { operation: RegistryOperation, message: String },
}

/// A registry error in plain values.
pub enum RegistryErrorView {
    NotStarted(RegistryOperation),
    ExitCode(RegistryOperation, Option<i32>),
    Message(RegistryOperation, Seq<char>),
}

impl View for RegistryError {
    type V = RegistryErrorView;

    open spec fn view(&self) -> RegistryErrorView {
        match self {
            RegistryError::NotStarted { operation } => RegistryErrorView::NotStarted(*operation),
            RegistryError::ExitCode { operation, code } => RegistryErrorView::ExitCode(*operation, *code),
            RegistryError::Message { operation, message } => RegistryErrorView::Message(*operation, message@),
        }
    }
}

/// The text with leading white space taken off.
pub open spec fn trim_start_white(t: Seq<char>) -> Seq<char>
    decreases t.len(),
{
    if t.len() > 0 && is_white_space(t[0]) {
        trim_start_white(t.drop_first())
    } else {
        t
    }
}

/// The text with trailing white space taken off.
pub open spec fn trim_end_white(t: Seq<char>) -> Seq<char>
    decreases t.len(),
{
    if t.len() > 0 && is_white_space(t.last()) {
        trim_end_white(t.drop_last())
    } else {
        t
    }
}

/// What `str::trim` gives: the text without leading and trailing white space.
pub open spec fn trim_white(t: Seq<char>) -> Seq<char> {
    trim_end_white(trim_start_white(t))
}

/// The text without leading and trailing white space.
pub fn trim(t: &str) -> (r: String)
    ensures
        r@ == trim_white(t@),
{
    let c = to_chars(t);
    let n = c.len();
    let mut a: usize = 0;
    assert(c@.subrange(0, n as int) =~= c@);
    while a < n && is_white_space_char(c[a])
        invariant
            n == c@.len(),
            a <= n,
            trim_start_white(c@) == trim_start_white(c@.subrange(a as int, n as int)),
        decreases n - a,
    {
        assert(c@.subrange(a as int, n as int).drop_first() =~= c@.subrange(a + 1, n as int));
        a = a + 1;
    }
    let mut b: usize = n;
    while b > a && is_white_space_char(c[b - 1])
        invariant
            n == c@.len(),
            a <= b <= n,
            trim_white(c@) == trim_end_white(c@.subrange(a as int, b as int)),
        decreases b,
    {
        assert(c@.subrange(a as int, b as int).drop_last() =~= c@.subrange(a as int, b - 1));
        b = b - 1;
    }
    String::from_str(t.substring_char(a, b))
}

/// The error a failed command gives, if its outcome is a failure.
pub open spec fn failure_of(operation: RegistryOperation, outcome: CommandOutcome) -> Option<RegistryErrorView> {
    match outcome {
        CommandOutcome::Succeeded => None,
        CommandOutcome::NotStarted => Some(RegistryErrorView::NotStarted(operation)),
        CommandOutcome::Failed { code, stderr } => if trim_white(stderr@).len() == 0 {
            Some(RegistryErrorView::ExitCode(operation, code))
        } else {
            Some(RegistryErrorView::Message(operation, trim_white(stderr@)))
        },
    }
}

/// The error a failed command gives.
fn error_for(operation: RegistryOperation, outcome: CommandOutcome) -> (r: Option<RegistryError>)
    ensures
        match r {
            Some(e) => failure_of(operation, outcome) == Some(e@),
            None => failure_of(operation, outcome) is None,
        },
{
    match outcome {
        CommandOutcome::Succeeded => None,
        CommandOutcome::NotStarted => Some(RegistryError::NotStarted { operation }),
        CommandOutcome::Failed { code, stderr } => {
            let message = trim(stderr.as_str());
            if message.as_str().unicode_len() == 0 {
                Some(RegistryError::ExitCode { operation, code })
            } else {
                Some(RegistryError::Message { operation, message })
            }
        },
    }
}

/// A sequence of registry commands and how far it has run.
///
/// The commands run in order. A failed command that is not required is passed over; the
/// first failed required command ends the sequence with its error. When the sequence has
/// run to its end, the shell may have to be told that associations changed, and the viewer
/// may then ask to become the default handler.
pub struct RegistryPlan {
    commands: Vec<RegistryCommand>,
    position: usize,
    error: Option<RegistryError>,
    notify_shell: bool,
    set_default_after: bool,
}

impl RegistryPlan {
    pub closed spec fn shapes(&self) -> Seq<CommandShape> {
        shapes_of(self.commands@)
    }

    pub closed spec fn position(&self) -> int {
        self.position as int
    }

    pub closed spec fn failure(&self) -> Option<RegistryErrorView> {
        match self.error {
            Some(e) => Some(e@),
            None => None,
        }
    }

    pub closed spec fn spec_notifies_shell(&self) -> bool {
        self.notify_shell
    }

    pub closed spec fn spec_sets_default_after(&self) -> bool {
        self.set_default_after
    }

    pub closed spec fn wf(&self) -> bool {
        &&& self.position <= self.commands@.len()
        &&& self.error is Some ==> self.position < self.commands@.len()
    }

    /// No command is left to run: one failed fatally, or all have run.
    pub open spec fn finished(&self) -> bool {
        self.failure() is Some || self.position() >= self.shapes().len()
    }

    /// A plan that has not run any command yet.
    pub open spec fn fresh(&self, shapes: Seq<CommandShape>, notify_shell: bool, set_default_after: bool) -> bool {
        &&& self.wf()
        &&& self.shapes() == shapes
        &&& self.position() == 0
        &&& self.failure() is None
        &&& self.spec_notifies_shell() == notify_shell
        &&& self.spec_sets_default_after() == set_default_after
    }

    fn start(commands: Vec<RegistryCommand>, notify_shell: bool, set_default_after: bool) -> (r: Self)
        ensures
            r.fresh(shapes_of(commands@), notify_shell, set_default_after),
    {
        RegistryPlan { commands, position: 0, error: None, notify_shell, set_default_after }
    }

    /// The commands of the plan, in order.
    pub fn commands(&self) -> (r: &Vec<RegistryCommand>)
        ensures
            shapes_of(r@) == self.shapes(),
    {
        &self.commands
    }

    /// The command to run next, if the plan has not finished.
    pub fn current(&self) -> (r: Option<&RegistryCommand>)
        requires
            self.wf(),
        ensures
            match r {
                Some(c) => !self.finished() && command_shape(*c) == self.shapes()[self.position()],
                None => self.finished(),
            },
    {
        if self.error.is_some() || self.position >= self.commands.len() {
            None
        } else {
            Some(&self.commands[self.position])
        }
    }

    /// Record how the current command ended.
    pub fn record(&mut self, outcome: CommandOutcome)
        requires
            old(self).wf(),
            !old(self).finished(),
        ensures
            final(self).wf(),
            final(self).shapes() == old(self).shapes(),
            final(self).spec_notifies_shell() == old(self).spec_notifies_shell(),
            final(self).spec_sets_default_after() == old(self).spec_sets_default_after(),
            ({
                let cmd = old(self).shapes()[old(self).position()];
                match failure_of(cmd.0, outcome) {
                    Some(f) if cmd.2 => final(self).position() == old(self).position()
                        && final(self).failure() == Some(f),
                    _ => final(self).position() == old(self).position() + 1
                        && final(self).failure() is None,
                }
            }),
    {
        assert(self.shapes().len() == self.commands@.len());
        assert(self.position < self.commands.len());
        let operation = self.commands[self.position].operation;
        let required = self.commands[self.position].required;
        match error_for(operation, outcome) {
            Some(e) => {
                if required {
                    self.error = Some(e);
                } else {
                    self.position = self.position + 1;
                }
            },
            None => {
                self.position = self.position + 1;
            },
        }
    }

    /// Whether the plan has finished.
    pub fn is_finished(&self) -> (r: bool)
        requires
            self.wf(),
        ensures
            r == self.finished(),
    {
        self.error.is_some() || self.position >= self.commands.len()
    }

    /// The error that ended the plan, if one did.
    pub fn error(&self) -> (r: Option<&RegistryError>)
        ensures
            match r {
                Some(e) => self.failure() == Some(e@),
                None => self.failure() is None,
            },
    {
        match &self.error {
            Some(e) => Some(e),
            None => None,
        }
    }

    /// Whether the shell is to be told about changed associations once the plan has run.
    pub fn notifies_shell(&self) -> (r: bool)
        ensures
            r == self.spec_notifies_shell(),
    {
        self.notify_shell
    }

    /// Whether the viewer asks to become the default handler once the plan has run.
    pub fn sets_default_after(&self) -> (r: bool)
        ensures
            r == self.spec_sets_default_after(),
    {
        self.set_default_after
    }
}

// ---------------------------------------------------------------------------
// Windows shell integration
// ---------------------------------------------------------------------------

proof fn lemma_shapes_of_push(v: Seq<RegistryCommand>, c: RegistryCommand)
    ensures
        shapes_of(v.push(c)) == shapes_of(v).push(command_shape(c)),
{
    assert(shapes_of(v.push(c)) =~= shapes_of(v).push(command_shape(c)));
}

proof fn lemma_shapes_of_append(v: Seq<RegistryCommand>, w: Seq<RegistryCommand>)
    ensures
        shapes_of(v + w) == shapes_of(v) + shapes_of(w),
{
    assert(shapes_of(v + w) =~= shapes_of(v) + shapes_of(w));
}

/// Windows-specific shell integration: file associations, auto-start and the queries the
/// viewer makes of the registry.
///
/// What goes to the registry is described here as plans of `reg.exe` commands; running them,
/// and the COM and shell calls that follow, is left to the caller.
pub struct WindowsIntegration;

impl WindowsIntegration {
    /// All registered image file extensions.
    pub fn get_registered_formats() -> (r: Vec<String>)
        ensures
            texts(r@) == registered_format_list(),
    {
        let exts = supported_extensions();
        let mut r: Vec<String> = Vec::new();
        let mut i: usize = 0;
        proof {
            reveal_strlit(".");
        }
        while i < exts.len()
            invariant
                i <= exts@.len(),
                exts@.len() == supported_extension_list().len(),
                forall|j: int| 0 <= j < exts@.len() ==> #[trigger] exts@[j]@ == supported_extension_list()[j],
                "."@ == seq!['.'],
                texts(r@) == registered_format_list().take(i as int),
            decreases exts@.len() - i,
        {
            let t = joined(".", exts[i]);
            let ghost before = r@;
            assert(t@ == registered_format_list()[i as int]);
            r.push(t);
            assert(r@ == before.push(t));
            assert(texts(r@) =~= texts(before).push(t@));
            assert(texts(r@) =~= registered_format_list().take(i + 1));
            i = i + 1;
        }
        assert(registered_format_list().take(i as int) =~= registered_format_list());
        r
    }

    /// The ProgID entries for an executable path.
    fn create_progid(app_path: &str) -> (r: Vec<RegistryCommand>)
        ensures
            shapes_of(r@) == progid_commands(app_path@),
    {
        let icon = joined(app_path, ",1");
        let open = joined3("\"", app_path, "\" \"%1\"");
        let slideshow = joined3("\"", app_path, "\" --slideshow \"%1\"");
        let mut r: Vec<RegistryCommand> = Vec::new();
        r.push(default_value_command("HKCU\\Software\\Classes\\Glint.ImageViewer", "Glint Image Viewer", true));
        r.push(default_value_command("HKCU\\Software\\Classes\\Glint.ImageViewer\\DefaultIcon", icon.as_str(), true));
        r.push(default_value_command("HKCU\\Software\\Classes\\Glint.ImageViewer\\shell\\open\\command", open.as_str(), true));
        r.push(default_value_command("HKCU\\Software\\Classes\\Glint.ImageViewer\\shell\\edit\\command", open.as_str(), true));
        r.push(default_value_command("HKCU\\Software\\Classes\\Glint.ImageViewer\\shell\\slideshow", "Start &slideshow", true));
        r.push(default_value_command("HKCU\\Software\\Classes\\Glint.ImageViewer\\shell\\slideshow\\command", slideshow.as_str(), true));
        r.push(default_value_command("HKCU\\Software\\Classes\\Directory\\shell\\Glint", "Open with &Glint", true));
        r.push(default_value_command("HKCU\\Software\\Classes\\Directory\\shell\\Glint\\command", open.as_str(), true));
        assert(shapes_of(r@) =~= progid_commands(app_path@));
        r
    }

    /// The entries that register one extension.
    fn register_format(ext: &str) -> (r: Vec<RegistryCommand>)
        ensures
            shapes_of(r@) == format_commands(ext@),
    {
        let key = joined("HKCU\\Software\\Classes\\", ext);
        let owl = joined3("HKCU\\Software\\Classes\\", ext, "\\OpenWithList\\glint.exe");
        let mut r: Vec<RegistryCommand> = Vec::new();
        r.push(default_value_command(key.as_str(), "Glint.ImageViewer", true));
        r.push(named_value_command(key.as_str(), "PerceivedType", "image", true));
        r.push(named_value_command(key.as_str(), "Content Type", content_type(ext), false));
        r.push(plain_command(RegistryOperation::Add, &[owl.as_str(), "/ve", "/t", "REG_SZ", "/f"], false));
        assert(shapes_of(r@) =~~= format_commands(ext@));
        r
    }

    /// The Default Programs entries.
    fn register_capabilities() -> (r: Vec<RegistryCommand>)
        ensures
            shapes_of(r@) == capability_commands(),
    {
        let mut r: Vec<RegistryCommand> = Vec::new();
        r.push(named_value_command("HKCU\\Software\\Glint\\Capabilities", "ApplicationName", "Glint", true));
        r.push(named_value_command("HKCU\\Software\\Glint\\Capabilities", "ApplicationDescription", "A fast, native image viewer and lightweight editor for Windows", true));
        r.push(named_value_command("HKCU\\Software\\RegisteredApplications", "Glint", "Software\\Glint\\Capabilities", true));
        assert(shapes_of(r@) =~= capability_commands());
        r
    }

    /// Everything that registers the viewer as an available handler.
    fn registration_entries(app_path: &str) -> (r: Vec<RegistryCommand>)
        ensures
            shapes_of(r@) == registration_commands(app_path@),
    {
        let mut r = Self::create_progid(app_path);
        let formats = Self::get_registered_formats();
        let mut i: usize = 0;
        while i < formats.len()
            invariant
                i <= formats.len(),
                texts(formats@) == registered_format_list(),
                shapes_of(r@) == progid_commands(app_path@) + all_format_commands(
                    registered_format_list().subrange(0, i as int),
                ),
            decreases formats.len() - i,
        {
            let mut more = Self::register_format(formats[i].as_str());
            let ghost before = r@;
            let ghost added = more@;
            r.append(&mut more);
            proof {
                lemma_shapes_of_append(before, added);
                let list = registered_format_list();
                assert(texts(formats@)[i as int] == formats@[i as int]@);
                assert(list.subrange(0, i + 1).drop_last() =~= list.subrange(0, i as int));
                assert(list.subrange(0, i + 1).last() == list[i as int]);
            }
            i = i + 1;
        }
        assert(registered_format_list().subrange(0, formats.len() as int) =~= registered_format_list());
        let mut caps = Self::register_capabilities();
        let ghost before = r@;
        let ghost added = caps@;
        r.append(&mut caps);
        proof {
            lemma_shapes_of_append(before, added);
        }
        r
    }

    /// Register the viewer as an available handler for all supported image formats: the
    /// ProgID, each extension, and the Default Programs entries. `app_path` is the path of the
    /// viewer's executable.
    pub fn register_as_available(app_path: &str) -> (r: RegistryPlan)
        ensures
            r.fresh(registration_commands(app_path@), false, false),
    {
        RegistryPlan::start(Self::registration_entries(app_path), false, false)
    }

    /// Register as available, then ask to become the default viewer for all formats.
    pub fn set_as_default_all(app_path: &str) -> (r: RegistryPlan)
        ensures
            r.fresh(registration_commands(app_path@), false, true),
    {
        RegistryPlan::start(Self::registration_entries(app_path), false, true)
    }

    /// Register (`enable`) or remove the auto-start entry.
    pub fn register_auto_start(enable: bool, app_path: &str) -> (r: RegistryPlan)
        ensures
            r.fresh(auto_start_commands(enable, app_path@), false, false),
    {
        let mut v: Vec<RegistryCommand> = Vec::new();
        if enable {
            let value = joined3("\"", app_path, "\" --background");
            v.push(named_value_command("HKCU\\Software\\Microsoft\\Windows\\CurrentVersion\\Run", "Glint", value.as_str(), true));
        } else {
            v.push(plain_command(RegistryOperation::Delete, &["HKCU\\Software\\Microsoft\\Windows\\CurrentVersion\\Run", "/v", "Glint", "/f"], true));
        }
        assert(shapes_of(v@) =~~= auto_start_commands(enable, app_path@));
        RegistryPlan::start(v, false, false)
    }

    /// Enable or disable auto-start: the same as `register_auto_start`.
    pub fn set_auto_start(enabled: bool, app_path: &str) -> (r: RegistryPlan)
        ensures
            r.fresh(auto_start_commands(enabled, app_path@), false, false),
    {
        Self::register_auto_start(enabled, app_path)
    }

    /// Remove all the viewer's file associations, then tell the shell.
    pub fn unregister_file_associations() -> (r: RegistryPlan)
        ensures
            r.fresh(unregistration_commands(), true, false),
    {
        let mut r: Vec<RegistryCommand> = Vec::new();
        r.push(plain_command(RegistryOperation::Delete, &["HKCU\\Software\\Classes\\Glint.ImageViewer", "/f"], false));
        let formats = Self::get_registered_formats();
        let mut i: usize = 0;
        assert(registered_format_list().subrange(0, 0) =~= Seq::<Seq<char>>::empty());
        assert(shapes_of(r@) =~~= seq![(RegistryOperation::Delete, seq!["HKCU\\Software\\Classes\\Glint.ImageViewer"@, "/f"@], false)]
            + all_format_removal_commands(Seq::<Seq<char>>::empty()));
        while i < formats.len()
            invariant
                i <= formats.len(),
                texts(formats@) == registered_format_list(),
                shapes_of(r@) == seq![(RegistryOperation::Delete, seq!["HKCU\\Software\\Classes\\Glint.ImageViewer"@, "/f"@], false)]
                    + all_format_removal_commands(registered_format_list().subrange(0, i as int)),
            decreases formats.len() - i,
        {
            let key = joined("HKCU\\Software\\Classes\\", formats[i].as_str());
            let owl = joined3("HKCU\\Software\\Classes\\", formats[i].as_str(), "\\OpenWithList\\glint.exe");
            let ghost before = r@;
            let a = plain_command(RegistryOperation::Delete, &[key.as_str(), "/ve", "/f"], false);
            let b = plain_command(RegistryOperation::Delete, &[owl.as_str(), "/f"], false);
            r.push(a);
            r.push(b);
            proof {
                lemma_shapes_of_push(before, a);
                lemma_shapes_of_push(before.push(a), b);
                let list = registered_format_list();
                assert(texts(formats@)[i as int] == formats@[i as int]@);
                assert(list.subrange(0, i + 1).drop_last() =~= list.subrange(0, i as int));
                assert(list.subrange(0, i + 1).last() == list[i as int]);
                assert(format_removal_commands(list[i as int]) =~~= seq![command_shape(a), command_shape(b)]);
            }
            i = i + 1;
        }
        assert(registered_format_list().subrange(0, formats.len() as int) =~= registered_format_list());
        r.push(plain_command(RegistryOperation::Delete, &["HKCU\\Software\\RegisteredApplications", "/v", "Glint", "/f"], false));
        r.push(plain_command(RegistryOperation::Delete, &["HKCU\\Software\\Glint", "/f"], false));
        r.push(plain_command(RegistryOperation::Delete, &["HKCU\\Software\\Classes\\Directory\\shell\\Glint", "/f"], false));
        assert(shapes_of(r@) =~~= unregistration_commands());
        RegistryPlan::start(r, true, false)
    }

    /// The query that reads which program the user chose for `.png` files.
    pub fn test_format_query() -> (r: RegistryCommand)
        ensures
            command_shape(r) == (RegistryOperation::Query, seq![
                "HKCU\\Software\\Microsoft\\Windows\\CurrentVersion\\Explorer\\FileExts\\.png\\UserChoice"@,
                "/v"@, "Progid"@,
            ], true),
    {
        let r = plain_command(RegistryOperation::Query, &[
            "HKCU\\Software\\Microsoft\\Windows\\CurrentVersion\\Explorer\\FileExts\\.png\\UserChoice",
            "/v", "Progid",
        ], true);
        assert(command_shape(r) =~~= (RegistryOperation::Query, seq![
            "HKCU\\Software\\Microsoft\\Windows\\CurrentVersion\\Explorer\\FileExts\\.png\\UserChoice"@,
            "/v"@, "Progid"@,
        ], true));
        r
    }

    /// Whether the viewer is the chosen program for `.png` files, from what the successful
    /// `test_format_query` printed (`None` when the query failed or could not run).
    pub fn is_default_for_test_format(query_output: Option<&str>) -> (r: bool)
        ensures
            r == match query_output {
                Some(out) => contains_seq(out@, "Glint.ImageViewer"@),
                None => false,
            },
    {
        match query_output {
            Some(out) => contains_chars(&to_chars(out), &to_chars("Glint.ImageViewer")),
            None => false,
        }
    }

    /// The query that reads whether applications use the light theme.
    pub fn dark_mode_query() -> (r: RegistryCommand)
        ensures
            command_shape(r) == (RegistryOperation::Query, seq![
                "HKCU\\Software\\Microsoft\\Windows\\CurrentVersion\\Themes\\Personalize"@,
                "/v"@, "AppsUseLightTheme"@,
            ], true),
    {
        let r = plain_command(RegistryOperation::Query, &[
            "HKCU\\Software\\Microsoft\\Windows\\CurrentVersion\\Themes\\Personalize",
            "/v", "AppsUseLightTheme",
        ], true);
        assert(command_shape(r) =~~= (RegistryOperation::Query, seq![
            "HKCU\\Software\\Microsoft\\Windows\\CurrentVersion\\Themes\\Personalize"@,
            "/v"@, "AppsUseLightTheme"@,
        ], true));
        r
    }

    /// Whether Windows is in dark mode, from what `dark_mode_query` printed (`None` when it
    /// could not run): the light-theme value reads `0x0`.
    pub fn is_windows_dark_mode(query_output: Option<&str>) -> (r: bool)
        ensures
            r == match query_output {
                Some(out) => contains_seq(out@, "0x0"@),
                None => false,
            },
    {
        match query_output {
            Some(out) => contains_chars(&to_chars(out), &to_chars("0x0")),
            None => false,
        }
    }

    /// The query whose success shows that auto-start is enabled.
    pub fn auto_start_query() -> (r: RegistryCommand)
        ensures
            command_shape(r) == (RegistryOperation::Query, seq![run_key(), "/v"@, "Glint"@], true),
    {
        let r = plain_command(RegistryOperation::Query, &[
            "HKCU\\Software\\Microsoft\\Windows\\CurrentVersion\\Run", "/v", "Glint",
        ], true);
        assert(command_shape(r) =~~= (RegistryOperation::Query, seq![run_key(), "/v"@, "Glint"@], true));
        r
    }

    /// The result of asking to become the default viewer (after registering, or alone), from
    /// how the COM calls went. On success the shell is to be told about the change.
    pub fn set_as_default_only(step: DefaultAppStep) -> (r: Result<(), DefaultAppError>)
        ensures
            match step {
                DefaultAppStep::NotCreated => r == Err::<(), DefaultAppError>(DefaultAppError::NotAvailable),
                DefaultAppStep::CallFailed => r == Err::<(), DefaultAppError>(DefaultAppError::CallFailed),
                DefaultAppStep::Done => r is Ok,
            },
    {
        match step {
            DefaultAppStep::NotCreated => Err(DefaultAppError::NotAvailable),
            DefaultAppStep::CallFailed => Err(DefaultAppError::CallFailed),
            DefaultAppStep::Done => Ok(()),
        }
    }

    /// The arguments for `powershell` that open the properties dialog of a file.
    pub fn open_properties(path: &str) -> (r: Vec<String>)
        ensures
            texts(r@) == shell_verb_args(path@, "Properties"@),
    {
        Self::shell_verb(path, "Properties")
    }

    /// The arguments for `powershell` that move a file to the recycle bin.
    pub fn move_to_recycle_bin(path: &str) -> (r: Vec<String>)
        ensures
            texts(r@) == shell_verb_args(path@, "delete"@),
    {
        Self::shell_verb(path, "delete")
    }

    fn shell_verb(path: &str, verb: &str) -> (r: Vec<String>)
        ensures
            texts(r@) == shell_verb_args(path@, verb@),
    {
        let quoted = quote_single_quotes(path);
        let head = joined3(
            "(New-Object -ComObject Shell.Application).Namespace(0).ParseName('",
            quoted.as_str(),
            "').InvokeVerb('",
        );
        let script = joined3(head.as_str(), verb, "')");
        let r = owned_texts(&["-NoProfile", "-WindowStyle", "Hidden", "-Command", script.as_str()]);
        assert(texts(r@) =~~= shell_verb_args(path@, verb@));
        r
    }
}

/// How the COM calls that make the viewer the default went.
#[derive(Debug, Clone, Copy, PartialEq, Eq, Structural)]
pub enum DefaultAppStep {
    /// The association-registration object could not be created.
    NotCreated,
    /// `SetAppAsDefaultAll` failed.
    CallFailed,
    /// The viewer is now the default.
    Done,
}

/// Why the viewer could not become the default.
#[derive(Debug, Clone, Copy, PartialEq, Eq, Structural)]
pub enum DefaultAppError {
    /// The association-registration object was not available (usually: not elevated).
    NotAvailable,
    /// Setting the defaults failed.
    CallFailed,
}

/// The arguments for `powershell` that invoke a shell verb on a file, the path quoted for
/// PowerShell.
pub open spec fn shell_verb_args(path: Seq<char>, verb: Seq<char>) -> Seq<Seq<char>> {
    seq![
        "-NoProfile"@, "-WindowStyle"@, "Hidden"@, "-Command"@,
        "(New-Object -ComObject Shell.Application).Namespace(0).ParseName('"@
            + escape_single_quotes(path) + "').InvokeVerb('"@ + verb + "')"@,
    ]
}

/// Text with every `'` doubled, as a single-quoted PowerShell string needs.
pub open spec fn escape_single_quotes(t: Seq<char>) -> Seq<char>
    decreases t.len(),
{
    if t.len() == 0 {
        Seq::empty()
    } else if t.last() == '\'' {
        escape_single_quotes(t.drop_last()) + seq!['\'', '\'']
    } else {
        escape_single_quotes(t.drop_last()).push(t.last())
    }
}

/// Text with every `'` doubled.
pub fn quote_single_quotes(t: &str) -> (r: String)
    ensures
        r@ == escape_single_quotes(t@),
{
    let c = to_chars(t);
    let n = c.len();
    let mut r = String::new();
    let mut seg: usize = 0;
    let mut i: usize = 0;
    while i < n
        invariant
            n == c@.len(),
            c@ == t@,
            seg <= i <= n,
            r@ + t@.subrange(seg as int, i as int) == escape_single_quotes(t@.subrange(0, i as int)),
        decreases n - i,
    {
        let ghost before = r@;
        assert(t@.subrange(0, i + 1).drop_last() =~= t@.subrange(0, i as int));
        if c[i] == '\'' {
            r.append(t.substring_char(seg, i + 1));
            r.append("'");
            proof {
                reveal_strlit("'");
                assert(t@.subrange(seg as int, i + 1) =~= t@.subrange(seg as int, i as int).push('\''));
                assert(r@ + t@.subrange(i + 1, i + 1) =~= before + t@.subrange(seg as int, i as int) + seq!['\'', '\'']);
            }
            seg = i + 1;
        } else {
            assert(before + t@.subrange(seg as int, i + 1) =~= (before + t@.subrange(seg as int, i as int)).push(t@[i as int]));
        }
        i = i + 1;
    }
    r.append(t.substring_char(seg, n));
    assert(t@.subrange(0, n as int) =~= t@);
    r
}

proof fn lemma_removals_optional(exts: Seq<Seq<char>>, i: int)
    requires
        0 <= i < all_format_removal_commands(exts).len(),
    ensures
        !all_format_removal_commands(exts)[i].2,
    decreases exts.len(),
{
    if exts.len() > 0 {
        let head = all_format_removal_commands(exts.drop_last());
        if i < head.len() {
            lemma_removals_optional(exts.drop_last(), i);
        }
    }
}

/// Removing the associations never stops at a failed command: none of its commands is
/// required, so whatever `record` is told, the plan moves on to the next one.
pub proof fn law_unregistration_never_fails(i: int)
    requires
        0 <= i < unregistration_commands().len(),
    ensures
        !unregistration_commands()[i].2,
{
    let middle = all_format_removal_commands(registered_format_list());
    if 1 <= i < 1 + middle.len() {
        lemma_removals_optional(registered_format_list(), i - 1);
    }
}

} // verus!
