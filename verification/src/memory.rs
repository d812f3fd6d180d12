//! Memory figures of the machine: the amounts that `/proc/meminfo` lists and
//! the memory modules that `dmidecode -t 17` describes.
//!
//! The callers read the file and run the command; the functions here take the
//! text and say what it means.

use crate::outside::{
    json_text, kv_document, kv_str_to_json, regex_capture, regex_group, string_from_utf8,
    text_at,
};
use crate::text::{
    chars_of, first_word, lemma_first_index_is, optional_text, parse_decimal, parse_u32,
    parse_u64_chars, split_blank, split_blank_lines, string_of,
};
use vstd::prelude::*;
use vstd::string::StringExecFns;
use vstd::utf8::{decode_utf8, valid_utf8};

verus! {

/// The memory size, in bytes, that a `/proc/meminfo` value such as
/// `16291848 kB` states: its first word read as a number, times a thousand.
/// `None` where that word is no number or the product does not fit a `usize`.
pub open spec fn kilobytes(field: Seq<char>) -> Option<usize> {
    match parse_decimal(first_word(field), usize::MAX as int) {
        Some(n) => if n * 1000 <= usize::MAX {
            Some((n * 1000) as usize)
        } else {
            None
        },
        None => None,
    }
}

/// The size that the line `key` of a listing states, where the listing
/// could be read and has such a line.
pub open spec fn memory_field(listing: Option<Map<Seq<char>, Seq<char>>>, key: Seq<char>) -> Option<
    usize,
> {
    match listing {
        Some(lines) => match text_at(lines, key) {
            Some(field) => kilobytes(field),
            None => None,
        },
        None => None,
    }
}

/// The size in bytes stated by one value of `/proc/meminfo`.
pub fn memory_amount(field: &str) -> (r: Option<usize>)
    ensures
        r == kilobytes(field@),
{
    let chars = chars_of(field);
    let mut end: usize = 0;
    while end < chars.len() && chars[end] != ' '
        invariant
            end <= chars@.len(),
            forall|i: int| 0 <= i < end ==> chars@[i] != ' ',
        decreases chars@.len() - end,
    {
        end = end + 1;
    }
    proof {
        lemma_first_index_is(chars@, ' ', end as int);
    }
    let word = string_of(&chars, 0, end);
    let digits = chars_of(word.as_str());
    assert(digits@.subrange(0, digits@.len() as int) =~= first_word(field@));
    match parse_u64_chars(&digits, 0, usize::MAX as u64) {
        Some(n) => match (n as usize).checked_mul(1000) {
            Some(bytes) => Some(bytes),
            None => None,
        },
        None => None,
    }
}

/// The amount listed under `key` in the text of `/proc/meminfo`.
fn meminfo_amount(meminfo: &str, key: &str) -> (r: Option<usize>)
    ensures
        r == memory_field(kv_document(meminfo@), key@),
{
    match kv_str_to_json(meminfo) {
        Ok(listing) => match json_text(&listing, key) {
            Some(field) => memory_amount(field.as_str()),
            None => None,
        },
        Err(_) => None,
    }
}

/// The total usable memory in bytes: the `MemTotal` line of `/proc/meminfo`.
pub fn get_total_memory(meminfo: &str) -> (r: Option<usize>)
    ensures
        r == memory_field(kv_document(meminfo@), "MemTotal"@),
{
    meminfo_amount(meminfo, "MemTotal")
}

/// The memory available to new programs: the `MemAvailable` line.
pub fn get_available_memory(meminfo: &str) -> (r: Option<usize>)
    ensures
        r == memory_field(kv_document(meminfo@), "MemAvailable"@),
{
    meminfo_amount(meminfo, "MemAvailable")
}

/// The memory that nothing uses: the `MemFree` line.
pub fn get_free_memory(meminfo: &str) -> (r: Option<usize>)
    ensures
        r == memory_field(kv_document(meminfo@), "MemFree"@),
{
    meminfo_amount(meminfo, "MemFree")
}

/// The total swap space: the `SwapTotal` line.
pub fn get_total_swap(meminfo: &str) -> (r: Option<usize>)
    ensures
        r == memory_field(kv_document(meminfo@), "SwapTotal"@),
{
    meminfo_amount(meminfo, "SwapTotal")
}

/// The swap space that nothing uses: the `SwapFree` line.
pub fn get_free_swap(meminfo: &str) -> (r: Option<usize>)
    ensures
        r == memory_field(kv_document(meminfo@), "SwapFree"@),
{
    meminfo_amount(meminfo, "SwapFree")
}

/// One memory module, as `dmidecode -t 17` describes it.
#[derive(Debug)]
pub struct MemoryDevice {
    /// The configured speed in MT/s, where the block states one that fits 32 bits.
    pub speed: Option<u32>,
    /// The form factor, such as `DIMM`; `N/A` where the block states none.
    pub form_factor: String,
    /// The memory technology, such as `DDR4`; `N/A` where the block states none.
    pub memory_type: String,
    /// The details of the type, such as `Synchronous`; `N/A` where the block states none.
    pub type_detail: String,
    /// Whether a module sits in the slot: whether the block states a speed.
    pub installed: bool,
}

/// What a `MemoryDevice` holds, with its texts as sequences of characters.
pub struct MemoryDeviceView {
    pub speed: Option<u32>,
    pub form_factor: Seq<char>,
    pub memory_type: Seq<char>,
    pub type_detail: Seq<char>,
    pub installed: bool,
}

impl View for MemoryDevice {
    type V = MemoryDeviceView;

    open spec fn view(&self) -> MemoryDeviceView {
        MemoryDeviceView {
            speed: self.speed,
            form_factor: self.form_factor@,
            memory_type: self.memory_type@,
            type_detail: self.type_detail@,
            installed: self.installed,
        }
    }
}

impl DeepView for MemoryDevice {
    type V = MemoryDeviceView;

    open spec fn deep_view(&self) -> MemoryDeviceView {
        self@
    }
}

impl Clone for MemoryDevice {
    fn clone(&self) -> (r: Self)
        ensures
            r@ == self@,
    {
        MemoryDevice {
            speed: self.speed,
            form_factor: self.form_factor.clone(),
            memory_type: self.memory_type.clone(),
            type_detail: self.type_detail.clone(),
            installed: self.installed,
        }
    }
}

impl Default for MemoryDevice {
    fn default() -> (r: Self)
        ensures
            r@ == (MemoryDeviceView {
                speed: None,
                form_factor: Seq::empty(),
                memory_type: Seq::empty(),
                type_detail: Seq::empty(),
                installed: false,
            }),
    {
        MemoryDevice {
            speed: None,
            form_factor: String::new(),
            memory_type: String::new(),
            type_detail: String::new(),
            installed: false,
        }
    }
}

/// The capture group that holds what a pattern looks for.
pub const CAPTURE_GROUP: usize = 1;

/// The regular expression that finds the speed of a module.
pub const SPEED_PATTERN: &'static str = "Speed: (\\d+) MT/s";

/// The regular expression that finds the form factor of a module.
pub const FORM_FACTOR_PATTERN: &'static str = "Form Factor: (.+)";

/// The regular expression that finds the type of a module.
pub const TYPE_PATTERN: &'static str = "Type: (.+)";

/// The regular expression that finds the type detail of a module.
pub const TYPE_DETAIL_PATTERN: &'static str = "Type Detail: (.+)";

/// The text that stands for a property that a block does not state.
pub const NOT_AVAILABLE: &'static str = "N/A";

/// What a search captured; nothing where the pattern was rejected.
pub open spec fn captured(found: Option<Option<Seq<char>>>) -> Option<Seq<char>> {
    match found {
        Some(group) => group,
        None => None,
    }
}

/// The captured text, or `N/A` where nothing was captured.
pub open spec fn or_not_available(capture: Option<Seq<char>>) -> Seq<char> {
    match capture {
        Some(text) => text,
        None => NOT_AVAILABLE@,
    }
}

/// The speed that captured digits state: `None` where nothing was captured
/// or the number does not fit 32 bits.
pub open spec fn speed_of(capture: Option<Seq<char>>) -> Option<u32> {
    match capture {
        Some(digits) => match parse_decimal(digits, u32::MAX as int) {
            Some(n) => Some(n as u32),
            None => None,
        },
        None => None,
    }
}

/// The module that the four captures of one block describe.
pub open spec fn device_of(
    speed: Option<Seq<char>>,
    form_factor: Option<Seq<char>>,
    memory_type: Option<Seq<char>>,
    type_detail: Option<Seq<char>>,
) -> MemoryDeviceView {
    MemoryDeviceView {
        speed: speed_of(speed),
        form_factor: or_not_available(form_factor),
        memory_type: or_not_available(memory_type),
        type_detail: or_not_available(type_detail),
        installed: speed is Some,
    }
}

/// The module that one block of the listing describes.
pub open spec fn device_in_block(block: Seq<char>) -> MemoryDeviceView {
    device_of(
        captured(regex_group(SPEED_PATTERN@, block, CAPTURE_GROUP)),
        captured(regex_group(FORM_FACTOR_PATTERN@, block, CAPTURE_GROUP)),
        captured(regex_group(TYPE_PATTERN@, block, CAPTURE_GROUP)),
        captured(regex_group(TYPE_DETAIL_PATTERN@, block, CAPTURE_GROUP)),
    )
}

/// The modules that a run of blocks describes: one for each block that is not
/// empty, in the order of the blocks.
pub open spec fn devices_of_blocks(blocks: Seq<Seq<char>>) -> Seq<MemoryDeviceView>
    decreases blocks.len(),
{
    if blocks.len() == 0 {
        Seq::empty()
    } else if blocks.last().len() == 0 {
        devices_of_blocks(blocks.drop_last())
    } else {
        devices_of_blocks(blocks.drop_last()).push(device_in_block(blocks.last()))
    }
}

/// The modules that the output of `dmidecode -t 17 -q` describes.
pub open spec fn devices_in(dmi: Seq<char>) -> Seq<MemoryDeviceView> {
    devices_of_blocks(split_blank(dmi))
}

fn text_or_not_available(capture: Option<String>) -> (r: String)
    ensures
        r@ == or_not_available(optional_text(capture)),
{
    match capture {
        Some(text) => text,
        None => String::from_str(NOT_AVAILABLE),
    }
}

fn capture_in(pattern: &str, block: &str) -> (r: Option<String>)
    ensures
        optional_text(r) == captured(regex_group(pattern@, block@, CAPTURE_GROUP)),
{
    match regex_capture(pattern, block, CAPTURE_GROUP) {
        Ok(found) => found,
        Err(_) => None,
    }
}

impl MemoryDevice {
    /// The module that four captures describe: the digits of its speed, its
    /// form factor, its type and the detail of its type.
    pub fn from_captures(
        speed: Option<String>,
        form_factor: Option<String>,
        memory_type: Option<String>,
        type_detail: Option<String>,
    ) -> (r: MemoryDevice)
        ensures
            r@ == device_of(
                optional_text(speed),
                optional_text(form_factor),
                optional_text(memory_type),
                optional_text(type_detail),
            ),
    {
        let (number, installed) = match &speed {
            Some(digits) => (parse_u32(digits.as_str()), true),
            None => (None, false),
        };
        MemoryDevice {
            speed: number,
            form_factor: text_or_not_available(form_factor),
            memory_type: text_or_not_available(memory_type),
            type_detail: text_or_not_available(type_detail),
            installed,
        }
    }
}

/// Reads the memory modules out of the text that `dmidecode -t 17 -q` prints:
/// one module for each block between blank lines that is not empty.
pub fn parse_dmidecode(dmi: &str) -> (devices: Vec<MemoryDevice>)
    ensures
        devices.deep_view() == devices_in(dmi@),
{
    let blocks = split_blank_lines(dmi);
    let mut devices: Vec<MemoryDevice> = Vec::new();
    let mut i: usize = 0;
    assert(blocks.deep_view().take(0) =~= Seq::<Seq<char>>::empty());
    assert(devices.deep_view() =~= Seq::<MemoryDeviceView>::empty());
    while i < blocks.len()
        invariant
            i <= blocks.len(),
            blocks.deep_view() == split_blank(dmi@),
            devices.deep_view() == devices_of_blocks(blocks.deep_view().take(i as int)),
        decreases blocks.len() - i,
    {
        let block = blocks[i].as_str();
        let ghost seen = blocks.deep_view().take(i + 1);
        let ghost before = devices.deep_view();
        assert(seen.drop_last() =~= blocks.deep_view().take(i as int));
        assert(seen.last() == block@);
        if !block.is_empty() {
            let device = MemoryDevice::from_captures(
                capture_in(SPEED_PATTERN, block),
                capture_in(FORM_FACTOR_PATTERN, block),
                capture_in(TYPE_PATTERN, block),
                capture_in(TYPE_DETAIL_PATTERN, block),
            );
            devices.push(device);
            assert(devices.deep_view() =~= before.push(device@));
        }
        i = i + 1;
    }
    assert(blocks.deep_view().take(i as int) =~= blocks.deep_view());
    devices
}

/// Why the memory modules could not be listed.
#[derive(Debug, Clone, Copy, PartialEq, Eq, Structural)]
pub enum MemoryDevicesError {
    /// `dmidecode` ended with status 1 or was ended by a signal: it may not read the tables.
    NoPermission,
    /// What `dmidecode` printed is no valid UTF-8.
    NotUtf8,
}

/// Whether the exit status of `dmidecode` says that it could read the tables:
/// any status but 1, where a status that is missing counts as 1.
pub open spec fn exit_permits(exit_code: Option<i32>) -> bool {
    match exit_code {
        Some(code) => code != 1,
        None => false,
    }
}

/// What a run of `dmidecode -t 17 -q` says of the memory modules, given its
/// exit status and the bytes it printed.
pub open spec fn memory_devices_of(exit_code: Option<i32>, stdout: Seq<u8>) -> Result<
    Seq<MemoryDeviceView>,
    MemoryDevicesError,
> {
    if !exit_permits(exit_code) {
        Err(MemoryDevicesError::NoPermission)
    } else if !valid_utf8(stdout) {
        Err(MemoryDevicesError::NotUtf8)
    } else {
        Ok(devices_in(decode_utf8(stdout)))
    }
}

/// The modules of a result, by their views.
pub open spec fn devices_view(r: Result<Vec<MemoryDevice>, MemoryDevicesError>) -> Result<
    Seq<MemoryDeviceView>,
    MemoryDevicesError,
> {
    match r {
        Ok(devices) => Ok(devices.deep_view()),
        Err(e) => Err(e),
    }
}

/// The memory modules that `dmidecode -t 17 -q` reported, run as the user:
/// `exit_code` is its exit status, if it has one, and `stdout` what it printed.
pub fn get_memory_devices(exit_code: Option<i32>, stdout: Vec<u8>) -> (r: Result<
    Vec<MemoryDevice>,
    MemoryDevicesError,
>)
    ensures
        devices_view(r) == memory_devices_of(exit_code, stdout@),
{
    let code = match exit_code {
        Some(code) => code,
        None => 1,
    };
    if code == 1 {
        return Err(MemoryDevicesError::NoPermission);
    }
    match string_from_utf8(stdout) {
        Ok(text) => Ok(parse_dmidecode(text.as_str())),
        Err(_) => Err(MemoryDevicesError::NotUtf8),
    }
}

/// The memory modules that `dmidecode -t 17 -q` reported when run through
/// `pkexec`, whose exit status is not looked at.
pub fn pkexec_get_memory_devices(stdout: Vec<u8>) -> (r: Result<
    Vec<MemoryDevice>,
    MemoryDevicesError,
>)
    ensures
        devices_view(r) == memory_devices_of(Some(0), stdout@),
{
    match string_from_utf8(stdout) {
        Ok(text) => Ok(parse_dmidecode(text.as_str())),
        Err(_) => Err(MemoryDevicesError::NotUtf8),
    }
}

/// The command that lists the memory modules, program first: `dmidecode -t 17 -q`.
pub open spec fn dmidecode_command() -> Seq<Seq<char>> {
    seq!["dmidecode"@, "-t"@, "17"@, "-q"@]
}

/// The command that lists the memory modules with the rights of the
/// administrator, program first: `pkexec` before `dmidecode`, or, from
/// inside a Flatpak sandbox, `flatpak_spawn` that runs `pkexec` on the host
/// with the `dmidecode` that lies below `flatpak_app_path`.
pub open spec fn pkexec_dmidecode_command(
    is_flatpak: bool,
    flatpak_spawn: Seq<char>,
    flatpak_app_path: Seq<char>,
) -> Seq<Seq<char>> {
    if is_flatpak {
        seq![
            flatpak_spawn,
            "--host"@,
            "/usr/bin/pkexec"@,
            "--disable-internal-agent"@,
            flatpak_app_path + "/bin/dmidecode"@,
            "-t"@,
            "17"@,
            "-q"@,
        ]
    } else {
        seq!["pkexec"@, "--disable-internal-agent"@, "dmidecode"@, "-t"@, "17"@, "-q"@]
    }
}

fn pushed(words: &mut Vec<String>, word: &str)
    ensures
        final(words).deep_view() == old(words).deep_view().push(word@),
{
    let ghost before = words.deep_view();
    words.push(String::from_str(word));
    assert(words.deep_view() =~= before.push(word@));
}

/// The command that lists the memory modules, program first.
pub fn get_dmidecode_command() -> (words: Vec<String>)
    ensures
        words.deep_view() == dmidecode_command(),
{
    let mut words: Vec<String> = Vec::new();
    assert(words.deep_view() =~= Seq::<Seq<char>>::empty());
    pushed(&mut words, "dmidecode");
    pushed(&mut words, "-t");
    pushed(&mut words, "17");
    pushed(&mut words, "-q");
    assert(words.deep_view() =~= dmidecode_command());
    words
}

/// The command that lists the memory modules with the rights of the
/// administrator, program first.
pub fn get_pkexec_dmidecode_command(
    is_flatpak: bool,
    flatpak_spawn: &str,
    flatpak_app_path: &str,
) -> (words: Vec<String>)
    ensures
        words.deep_view() == pkexec_dmidecode_command(is_flatpak, flatpak_spawn@, flatpak_app_path@),
{
    let mut words: Vec<String> = Vec::new();
    assert(words.deep_view() =~= Seq::<Seq<char>>::empty());
    if is_flatpak {
        let program = String::from_str(flatpak_app_path).concat("/bin/dmidecode");
        pushed(&mut words, flatpak_spawn);
        pushed(&mut words, "--host");
        pushed(&mut words, "/usr/bin/pkexec");
        pushed(&mut words, "--disable-internal-agent");
        pushed(&mut words, program.as_str());
        pushed(&mut words, "-t");
        pushed(&mut words, "17");
        pushed(&mut words, "-q");
    } else {
        pushed(&mut words, "pkexec");
        pushed(&mut words, "--disable-internal-agent");
        pushed(&mut words, "dmidecode");
        pushed(&mut words, "-t");
        pushed(&mut words, "17");
        pushed(&mut words, "-q");
    }
    assert(words.deep_view() =~= pkexec_dmidecode_command(
        is_flatpak,
        flatpak_spawn@,
        flatpak_app_path@,
    ));
    words
}

} // verus!
