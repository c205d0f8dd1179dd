//! What a binary tells of the system it was built on: the architecture from
//! its header, the distribution and its version from the marks that the
//! compiler and the C library leave in it.

use vstd::prelude::*;
use crate::address::segments_view;
use crate::pattern::{
    bytes_first_capture, bytes_pattern_compiles, capture_view, first_capture, PatternError,
};
use crate::text::{from_utf8, has_prefix, opt_view, starts_with};
use vstd::utf8::{decode_utf8, valid_utf8};

verus! {

/// The distribution and the versions of its packages.
#[derive(Clone, Debug, PartialEq, Eq)]
pub struct Packages {
    pub arch: Option<&'static str>,
    pub distro: Option<&'static str>,
    pub distro_version: Option<&'static str>,
    pub libc_version: Option<String>,
}

/// Packages, as plain values.
pub struct PackagesView {
    pub arch: Option<Seq<char>>,
    pub distro: Option<Seq<char>>,
    pub distro_version: Option<Seq<char>>,
    pub libc_version: Option<Seq<char>>,
}

/// The characters of an optional constant text.
pub open spec fn static_view(o: Option<&'static str>) -> Option<Seq<char>> {
    match o {
        Some(s) => Some(s@),
        None => None,
    }
}

impl View for Packages {
    type V = PackagesView;

    open spec fn view(&self) -> PackagesView {
        PackagesView {
            arch: static_view(self.arch),
            distro: static_view(self.distro),
            distro_version: static_view(self.distro_version),
            libc_version: opt_view(self.libc_version),
        }
    }
}

impl Default for Packages {
    fn default() -> (r: Packages)
        ensures
            r@ == (PackagesView {
                arch: None,
                distro: None,
                distro_version: None,
                libc_version: None,
            }),
    {
        Packages { arch: None, distro: None, distro_version: None, libc_version: None }
    }
}

/// The architecture that an image is built for where no binary tells one.
pub const DEFAULT_ARCH: &'static str = "amd64";

/// The distribution that an image is built from where no binary tells one.
pub const DEFAULT_DISTRO: &'static str = "ubuntu";

/// The version of the distribution where no binary tells one.
pub const DEFAULT_DISTRO_VERSION: &'static str = "latest";

/// The version of the C library where no binary tells one: any.
pub const DEFAULT_LIBC_VERSION: &'static str = "*";

/// Whether an ELF file is made for 32 or for 64 bits.
#[derive(Clone, Copy, Debug, PartialEq, Eq, Structural)]
pub enum Class {
    Elf32,
    Elf64,
}

/// What of an ELF header tells the architecture.
#[derive(Clone, Copy, Debug, PartialEq, Eq, Structural)]
pub struct ElfHeader {
    pub class: Class,
    pub big_endian: bool,
    pub machine: u16,
}

/// The header of an ELF file, as the `elf` crate reads it; `None` where the
/// bytes are no ELF file.
pub uninterp spec fn elf_header(bytes: Seq<u8>) -> Option<ElfHeader>;

/// `ElfBytes::minimal_parse` for any byte order: the class, the byte order
/// and the machine of the file's header, or `None` where the bytes do not
/// parse. The result depends on the bytes alone.
#[verifier::external_body]
fn minimal_parse(bytes: &[u8]) -> (r: Option<ElfHeader>)
    ensures
        r == elf_header(bytes@),
{
    match elf::ElfBytes::<elf::endian::AnyEndian>::minimal_parse(bytes) {
        Ok(file) => Some(
            ElfHeader {
                class: match file.ehdr.class {
                    elf::file::Class::ELF32 => Class::Elf32,
                    elf::file::Class::ELF64 => Class::Elf64,
                },
                big_endian: elf::endian::EndianParse::is_big(file.ehdr.endianness),
                machine: file.ehdr.e_machine,
            },
        ),
        Err(_) => None,
    }
}

/// The machines of the ELF format that Debian has a name for, by their
/// numbers.
pub const EM_SPARC: u16 = 2;

pub const EM_386: u16 = 3;

pub const EM_MIPS: u16 = 8;

pub const EM_PARISC: u16 = 15;

pub const EM_PPC: u16 = 20;

pub const EM_PPC64: u16 = 21;

pub const EM_S390: u16 = 22;

pub const EM_ARM: u16 = 40;

pub const EM_ALPHA: u16 = 41;

pub const EM_SH: u16 = 42;

pub const EM_IA_64: u16 = 50;

pub const EM_X86_64: u16 = 62;

pub const EM_AARCH64: u16 = 183;

pub const EM_AVR32: u16 = 185;

pub const EM_RISCV: u16 = 243;

/// The name that Debian gives the architecture of a header, if it has one.
pub open spec fn debian_arch(h: ElfHeader) -> Option<Seq<char>> {
    if h.machine == EM_386 {
        Some("i386"@)
    } else if h.machine == EM_AARCH64 {
        Some("arm64"@)
    } else if h.machine == EM_ALPHA {
        Some("alpha"@)
    } else if h.machine == EM_ARM {
        Some("armhf"@)
    } else if h.machine == EM_AVR32 {
        Some("avr32"@)
    } else if h.machine == EM_IA_64 {
        Some("ia64"@)
    } else if h.machine == EM_MIPS {
        match h.class {
            Class::Elf32 => if h.big_endian {
                Some("mips"@)
            } else {
                Some("mipsel"@)
            },
            Class::Elf64 => Some("mips64el"@),
        }
    } else if h.machine == EM_PARISC {
        Some("hppa"@)
    } else if h.machine == EM_PPC {
        Some("powerpc"@)
    } else if h.machine == EM_PPC64 {
        if h.big_endian {
            Some("ppc64"@)
        } else {
            Some("ppc64el"@)
        }
    } else if h.machine == EM_RISCV {
        Some("riscv64"@)
    } else if h.machine == EM_S390 {
        match h.class {
            Class::Elf32 => Some("s390"@),
            Class::Elf64 => Some("s390x"@),
        }
    } else if h.machine == EM_SH {
        Some("sh4"@)
    } else if h.machine == EM_SPARC {
        match h.class {
            Class::Elf32 => Some("sparc"@),
            Class::Elf64 => Some("sparc64"@),
        }
    } else if h.machine == EM_X86_64 {
        Some("amd64"@)
    } else {
        None
    }
}

/// The name that Debian gives the architecture of a header.
pub fn get_debian_arch_str(ehdr: &ElfHeader) -> (r: Option<&'static str>)
    ensures
        static_view(r) == debian_arch(*ehdr),
{
    if ehdr.machine == EM_386 {
        Some("i386")
    } else if ehdr.machine == EM_AARCH64 {
        Some("arm64")
    } else if ehdr.machine == EM_ALPHA {
        Some("alpha")
    } else if ehdr.machine == EM_ARM {
        Some("armhf")
    } else if ehdr.machine == EM_AVR32 {
        Some("avr32")
    } else if ehdr.machine == EM_IA_64 {
        Some("ia64")
    } else if ehdr.machine == EM_MIPS {
        match ehdr.class {
            Class::Elf32 => if ehdr.big_endian {
                Some("mips")
            } else {
                Some("mipsel")
            },
            Class::Elf64 => Some("mips64el"),
        }
    } else if ehdr.machine == EM_PARISC {
        Some("hppa")
    } else if ehdr.machine == EM_PPC {
        Some("powerpc")
    } else if ehdr.machine == EM_PPC64 {
        if ehdr.big_endian {
            Some("ppc64")
        } else {
            Some("ppc64el")
        }
    } else if ehdr.machine == EM_RISCV {
        Some("riscv64")
    } else if ehdr.machine == EM_S390 {
        match ehdr.class {
            Class::Elf32 => Some("s390"),
            Class::Elf64 => Some("s390x"),
        }
    } else if ehdr.machine == EM_SH {
        Some("sh4")
    } else if ehdr.machine == EM_SPARC {
        match ehdr.class {
            Class::Elf32 => Some("sparc"),
            Class::Elf64 => Some("sparc64"),
        }
    } else if ehdr.machine == EM_X86_64 {
        Some("amd64")
    } else {
        None
    }
}

/// The versions of Debian that ship a compiler of the version.
pub open spec fn debian_by_gcc(v: Seq<char>) -> Seq<Seq<char>> {
    if has_prefix(v, "6."@) {
        seq!["9"@]
    } else if has_prefix(v, "7."@) || has_prefix(v, "8."@) {
        seq!["10"@]
    } else if has_prefix(v, "9."@) || has_prefix(v, "10."@) {
        seq!["11"@]
    } else if has_prefix(v, "11."@) || has_prefix(v, "12."@) {
        seq!["12"@]
    } else {
        Seq::empty()
    }
}

/// The versions of Ubuntu that ship a compiler of the version.
pub open spec fn ubuntu_by_gcc(v: Seq<char>) -> Seq<Seq<char>> {
    if has_prefix(v, "7."@) {
        seq!["18.04"@]
    } else if has_prefix(v, "9."@) {
        seq!["20.04"@]
    } else if has_prefix(v, "11."@) {
        seq!["22.04"@]
    } else if has_prefix(v, "12."@) {
        seq!["22.10"@, "23.04"@]
    } else {
        Seq::empty()
    }
}

/// The versions of Debian that ship a C library of the version.
pub open spec fn debian_by_libc(v: Seq<char>) -> Seq<Seq<char>> {
    if has_prefix(v, "2.24-"@) {
        seq!["9"@]
    } else if has_prefix(v, "2.28-"@) {
        seq!["10"@]
    } else if has_prefix(v, "2.31-"@) {
        seq!["11"@]
    } else if has_prefix(v, "2.36-"@) {
        seq!["12"@]
    } else {
        Seq::empty()
    }
}

/// The versions of Ubuntu that ship a C library of the version.
pub open spec fn ubuntu_by_libc(v: Seq<char>) -> Seq<Seq<char>> {
    if has_prefix(v, "2.27-"@) {
        seq!["18.04"@]
    } else if has_prefix(v, "2.31-"@) {
        seq!["20.04"@]
    } else if has_prefix(v, "2.35-"@) {
        seq!["22.04"@]
    } else if has_prefix(v, "2.36-"@) {
        seq!["22.10"@]
    } else if has_prefix(v, "2.37-"@) {
        seq!["23.04"@]
    } else {
        Seq::empty()
    }
}

fn one(a: &'static str) -> (r: Vec<&'static str>)
    ensures
        segments_view(r@) == seq![a@],
{
    let mut r: Vec<&'static str> = Vec::new();
    r.push(a);
    assert(segments_view(r@) =~= seq![a@]);
    r
}

fn none() -> (r: Vec<&'static str>)
    ensures
        segments_view(r@) == Seq::<Seq<char>>::empty(),
{
    let r: Vec<&'static str> = Vec::new();
    assert(segments_view(r@) =~= Seq::<Seq<char>>::empty());
    r
}

/// The versions of Debian that ship a compiler of the version.
pub fn get_debian_versions_by_gcc_version(gcc_version: &str) -> (r: Vec<&'static str>)
    ensures
        segments_view(r@) == debian_by_gcc(gcc_version@),
{
    if starts_with(gcc_version, "6.") {
        one("9")
    } else if starts_with(gcc_version, "7.") || starts_with(gcc_version, "8.") {
        one("10")
    } else if starts_with(gcc_version, "9.") || starts_with(gcc_version, "10.") {
        one("11")
    } else if starts_with(gcc_version, "11.") || starts_with(gcc_version, "12.") {
        one("12")
    } else {
        none()
    }
}

/// The versions of Ubuntu that ship a compiler of the version.
pub fn get_ubuntu_versions_by_gcc_version(gcc_version: &str) -> (r: Vec<&'static str>)
    ensures
        segments_view(r@) == ubuntu_by_gcc(gcc_version@),
{
    if starts_with(gcc_version, "7.") {
        one("18.04")
    } else if starts_with(gcc_version, "9.") {
        one("20.04")
    } else if starts_with(gcc_version, "11.") {
        one("22.04")
    } else if starts_with(gcc_version, "12.") {
        let mut r = one("22.10");
        let ghost before = segments_view(r@);
        r.push("23.04");
        assert(segments_view(r@) =~= before.push("23.04"@));
        assert(segments_view(r@) =~= seq!["22.10"@, "23.04"@]);
        r
    } else {
        none()
    }
}

/// The versions of Debian that ship a C library of the version.
pub fn get_debian_versions_by_libc_version(libc_version: &str) -> (r: Vec<&'static str>)
    ensures
        segments_view(r@) == debian_by_libc(libc_version@),
{
    if starts_with(libc_version, "2.24-") {
        one("9")
    } else if starts_with(libc_version, "2.28-") {
        one("10")
    } else if starts_with(libc_version, "2.31-") {
        one("11")
    } else if starts_with(libc_version, "2.36-") {
        one("12")
    } else {
        none()
    }
}

/// The versions of Ubuntu that ship a C library of the version.
pub fn get_ubuntu_versions_by_libc_version(libc_version: &str) -> (r: Vec<&'static str>)
    ensures
        segments_view(r@) == ubuntu_by_libc(libc_version@),
{
    if starts_with(libc_version, "2.27-") {
        one("18.04")
    } else if starts_with(libc_version, "2.31-") {
        one("20.04")
    } else if starts_with(libc_version, "2.35-") {
        one("22.04")
    } else if starts_with(libc_version, "2.36-") {
        one("22.10")
    } else if starts_with(libc_version, "2.37-") {
        one("23.04")
    } else {
        none()
    }
}

/// `x` stands in every list from `from` on.
pub open spec fn in_all(lists: Seq<Seq<Seq<char>>>, from: int, x: Seq<char>) -> bool {
    forall|k: int| from <= k < lists.len() ==> (#[trigger] lists[k]).contains(x)
}

/// Those of the first `n` texts of the first list that stand in every
/// other list, in their order.
pub open spec fn common(lists: Seq<Seq<Seq<char>>>, n: int) -> Seq<Seq<char>>
    decreases n,
{
    if n <= 0 || lists.len() == 0 {
        Seq::empty()
    } else if in_all(lists, 1, lists[0][n - 1]) {
        common(lists, n - 1).push(lists[0][n - 1])
    } else {
        common(lists, n - 1)
    }
}

/// What all the lists have in common, in the order of the first; nothing
/// where there is no list.
pub open spec fn intersection(lists: Seq<Seq<Seq<char>>>) -> Seq<Seq<char>> {
    if lists.len() == 0 {
        Seq::empty()
    } else {
        common(lists, lists[0].len() as int)
    }
}

/// Lists of versions, as plain sequences.
pub open spec fn lists_view(lists: Seq<Vec<&'static str>>) -> Seq<Seq<Seq<char>>> {
    lists.map_values(|l: Vec<&'static str>| segments_view(l@))
}

/// Whether the list holds the text.
fn holds(list: &Vec<&'static str>, x: &str) -> (r: bool)
    ensures
        r == segments_view(list@).contains(x@),
{
    let mut i: usize = 0;
    while i < list.len()
        invariant
            i <= list.len(),
            forall|j: int| 0 <= j < i ==> segments_view(list@)[j] != x@,
        decreases list.len() - i,
    {
        if list[i].eq(x) {
            assert(segments_view(list@)[i as int] == x@);
            return true;
        }
        i += 1;
    }
    false
}

/// Whether every list from the second on holds the text.
fn in_rest(slices: &[Vec<&'static str>], x: &str) -> (r: bool)
    requires
        slices@.len() > 0,
    ensures
        r == in_all(lists_view(slices@), 1, x@),
{
    let mut k: usize = 1;
    while k < slices.len()
        invariant
            1 <= k <= slices.len(),
            forall|j: int| 1 <= j < k ==> (#[trigger] lists_view(slices@)[j]).contains(x@),
        decreases slices.len() - k,
    {
        if !holds(&slices[k], x) {
            assert(!lists_view(slices@)[k as int].contains(x@));
            return false;
        }
        assert(lists_view(slices@)[k as int].contains(x@));
        k += 1;
    }
    true
}

/// What all the lists have in common.
pub fn get_intersection(slices: &[Vec<&'static str>]) -> (r: Vec<&'static str>)
    ensures
        segments_view(r@) == intersection(lists_view(slices@)),
{
    let mut r: Vec<&'static str> = Vec::new();
    if slices.len() == 0 {
        assert(segments_view(r@) =~= Seq::<Seq<char>>::empty());
        return r;
    }
    let first = &slices[0];
    let ghost lists = lists_view(slices@);
    assert(lists[0] == segments_view(first@));
    let mut i: usize = 0;
    while i < first.len()
        invariant
            i <= first.len(),
            slices@.len() > 0,
            lists == lists_view(slices@),
            lists[0] == segments_view(first@),
            segments_view(r@) == common(lists, i as int),
        decreases first.len() - i,
    {
        let x = first[i];
        assert(lists[0][i as int] == x@);
        if in_rest(slices, x) {
            let ghost before = segments_view(r@);
            r.push(x);
            assert(segments_view(r@) =~= before.push(x@));
        }
        i += 1;
    }
    r
}

/// The version that the candidates agree on: the first that stands in every
/// list that is known; none where no list is known or they share nothing.
pub open spec fn agreed(lists: Seq<Seq<Seq<char>>>) -> Option<Seq<char>> {
    if intersection(lists).len() > 0 {
        Some(intersection(lists)[0])
    } else {
        None
    }
}

/// The lists that are known, in their order.
pub open spec fn known(candidates: Seq<Option<Vec<&'static str>>>) -> Seq<Vec<&'static str>>
    decreases candidates.len(),
{
    if candidates.len() == 0 {
        Seq::empty()
    } else {
        match candidates.last() {
            Some(list) => known(candidates.drop_last()).push(list),
            None => known(candidates.drop_last()),
        }
    }
}

/// The version that the candidates agree on.
pub fn get_distro_version(candidates: Vec<Option<Vec<&'static str>>>) -> (r: Option<&'static str>)
    ensures
        static_view(r) == agreed(lists_view(known(candidates@))),
{
    let mut lists: Vec<Vec<&'static str>> = Vec::new();
    for candidate in it: candidates
        invariant
            lists@ == known(candidates@.take(it.index() as int)),
    {
        let ghost i = it.index() as int;
        proof {
            assert(candidates@.take(i + 1).drop_last() == candidates@.take(i));
            assert(candidates@.take(i + 1).last() == candidate);
        }
        match candidate {
            Some(list) => {
                lists.push(list);
            },
            None => {},
        }
    }
    assert(candidates@.take(candidates@.len() as int) == candidates@);
    let common = get_intersection(lists.as_slice());
    if common.len() > 0 {
        assert(segments_view(common@)[0] == common[0]@);
        Some(common[0])
    } else {
        None
    }
}

/// Why a binary could not be analyzed.
#[derive(Clone, Debug, PartialEq, Eq)]
pub enum DistroError {
    /// A pattern does not compile.
    Pattern(PatternError),
    /// A mark was found, but not the version in it.
    MissingCapture,
    /// A version is no text.
    NotUtf8,
}

/// The marks that the compiler, the C library and the loader of Debian and
/// of Ubuntu leave in a binary, each with the version as its group.
pub const DEBIAN_GCC_PATTERN: &'static str = "GCC: \\(Debian (.+?)\\)";

pub const DEBIAN_LIBC_PATTERN: &'static str = "GNU C Library \\(Debian GLIBC (.+?)\\)";

pub const DEBIAN_LDSO_PATTERN: &'static str = "ld\\.so \\(Debian GLIBC (.+?)\\)";

pub const UBUNTU_GCC_PATTERN: &'static str = "GCC: \\(Ubuntu (.+?)\\)";

pub const UBUNTU_LIBC_PATTERN: &'static str = "GNU C Library \\(Ubuntu GLIBC (.+?)\\)";

pub const UBUNTU_LDSO_PATTERN: &'static str = "ld\\.so \\(Ubuntu GLIBC (.+?)\\)";

/// Why a binary could not be analyzed, as plain values.
pub enum Failure {
    Pattern(Seq<char>),
    MissingCapture,
    NotUtf8,
}

impl View for DistroError {
    type V = Failure;

    open spec fn view(&self) -> Failure {
        match self {
            DistroError::Pattern(e) => Failure::Pattern(e.pattern@),
            DistroError::MissingCapture => Failure::MissingCapture,
            DistroError::NotUtf8 => Failure::NotUtf8,
        }
    }
}

/// The version that a capture holds: none where nothing was captured, the
/// text of the capture where it is text. A capture without its group and
/// one that is no text are failures.
pub open spec fn version_of(capture: Option<Option<Seq<u8>>>) -> Result<Option<Seq<char>>, Failure> {
    match capture {
        None => Ok(None),
        Some(None) => Err(Failure::MissingCapture),
        Some(Some(bytes)) => if valid_utf8(bytes) {
            Ok(Some(decode_utf8(bytes)))
        } else {
            Err(Failure::NotUtf8)
        },
    }
}

/// Whether a result is the outcome that the model gives.
pub open spec fn is_outcome<T: View, E: View>(r: Result<T, E>, model: Result<T::V, E::V>) -> bool {
    match model {
        Ok(v) => r is Ok && r->Ok_0@ == v,
        Err(f) => r is Err && r->Err_0@ == f,
    }
}

/// The version that a capture holds.
pub fn version_from_capture(capture: Option<Option<Vec<u8>>>) -> (r: Result<
    Option<String>,
    DistroError,
>)
    ensures
        match version_of(capture_view(capture)) {
            Ok(v) => r is Ok && opt_view(r->Ok_0) == v,
            Err(f) => r is Err && r->Err_0@ == f,
        },
{
    match capture {
        None => Ok(None),
        Some(None) => Err(DistroError::MissingCapture),
        Some(Some(bytes)) => match from_utf8(bytes) {
            Some(text) => Ok(Some(text)),
            None => Err(DistroError::NotUtf8),
        },
    }
}

/// The version that a pattern finds in the bytes. A pattern that does not
/// compile is a failure.
pub open spec fn found(pattern: Seq<char>, bytes: Seq<u8>) -> Result<Option<Seq<char>>, Failure> {
    if bytes_pattern_compiles(pattern) {
        version_of(bytes_first_capture(pattern, bytes))
    } else {
        Err(Failure::Pattern(pattern))
    }
}

/// What a version is after a pattern was tried: as it was where it was
/// known, and else what the pattern finds.
pub open spec fn tried(before: Option<Seq<char>>, pattern: Seq<char>, bytes: Seq<u8>) -> Result<
    Option<Seq<char>>,
    Failure,
> {
    if before is Some {
        Ok(before)
    } else {
        found(pattern, bytes)
    }
}

/// Looks for a version with a pattern that has one group, unless the
/// version is known already.
pub fn try_regex_1(result: &mut Option<String>, pattern: &str, bytes: &[u8]) -> (r: Result<
    (),
    DistroError,
>)
    ensures
        match tried(opt_view(*old(result)), pattern@, bytes@) {
            Ok(v) => r is Ok && opt_view(*final(result)) == v,
            Err(f) => r is Err && r->Err_0@ == f && *final(result) == *old(result),
        },
{
    if result.is_some() {
        return Ok(());
    }
    let capture = match first_capture(pattern, bytes) {
        Ok(c) => c,
        Err(e) => {
            return Err(DistroError::Pattern(e));
        },
    };
    match version_from_capture(capture) {
        Ok(v) => {
            *result = v;
            Ok(())
        },
        Err(e) => Err(e),
    }
}

/// What was found in a binary.
#[derive(Clone, Debug, PartialEq, Eq)]
pub struct BinaryInfo {
    pub ehdr: Option<ElfHeader>,
    pub debian_gcc_version: Option<String>,
    pub debian_libc_version: Option<String>,
    pub ubuntu_gcc_version: Option<String>,
    pub ubuntu_libc_version: Option<String>,
}

/// What was found in a binary, as plain values.
pub struct BinaryInfoView {
    pub ehdr: Option<ElfHeader>,
    pub debian_gcc_version: Option<Seq<char>>,
    pub debian_libc_version: Option<Seq<char>>,
    pub ubuntu_gcc_version: Option<Seq<char>>,
    pub ubuntu_libc_version: Option<Seq<char>>,
}

impl View for BinaryInfo {
    type V = BinaryInfoView;

    open spec fn view(&self) -> BinaryInfoView {
        BinaryInfoView {
            ehdr: self.ehdr,
            debian_gcc_version: opt_view(self.debian_gcc_version),
            debian_libc_version: opt_view(self.debian_libc_version),
            ubuntu_gcc_version: opt_view(self.ubuntu_gcc_version),
            ubuntu_libc_version: opt_view(self.ubuntu_libc_version),
        }
    }
}

/// The version that the first of two patterns finds, or else the second.
pub open spec fn found_either(first: Seq<char>, second: Seq<char>, bytes: Seq<u8>) -> Result<
    Option<Seq<char>>,
    Failure,
> {
    match found(first, bytes) {
        Ok(v) => tried(v, second, bytes),
        Err(f) => Err(f),
    }
}

/// What is found in the bytes of a binary: its header where it is an ELF
/// file, and the versions that the compiler and the C library of Debian and
/// of Ubuntu have left in it, looked for in this order. The first failure
/// ends the analysis.
pub open spec fn analysis(bytes: Seq<u8>) -> Result<BinaryInfoView, Failure> {
    match found(DEBIAN_GCC_PATTERN@, bytes) {
        Err(f) => Err(f),
        Ok(debian_gcc) => match found_either(DEBIAN_LIBC_PATTERN@, DEBIAN_LDSO_PATTERN@, bytes) {
            Err(f) => Err(f),
            Ok(debian_libc) => match found(UBUNTU_GCC_PATTERN@, bytes) {
                Err(f) => Err(f),
                Ok(ubuntu_gcc) => match found_either(
                    UBUNTU_LIBC_PATTERN@,
                    UBUNTU_LDSO_PATTERN@,
                    bytes,
                ) {
                    Err(f) => Err(f),
                    Ok(ubuntu_libc) => Ok(
                        BinaryInfoView {
                            ehdr: elf_header(bytes),
                            debian_gcc_version: debian_gcc,
                            debian_libc_version: debian_libc,
                            ubuntu_gcc_version: ubuntu_gcc,
                            ubuntu_libc_version: ubuntu_libc,
                        },
                    ),
                },
            },
        },
    }
}

impl BinaryInfo {
    /// Analyzes the bytes of a binary.
    pub fn analyze(bytes: &[u8]) -> (r: Result<BinaryInfo, DistroError>)
        ensures
            is_outcome(r, analysis(bytes@)),
    {
        let mut result = BinaryInfo {
            ehdr: minimal_parse(bytes),
            debian_gcc_version: None,
            debian_libc_version: None,
            ubuntu_gcc_version: None,
            ubuntu_libc_version: None,
        };
        try_regex_1(&mut result.debian_gcc_version, DEBIAN_GCC_PATTERN, bytes)?;
        try_regex_1(&mut result.debian_libc_version, DEBIAN_LIBC_PATTERN, bytes)?;
        try_regex_1(&mut result.debian_libc_version, DEBIAN_LDSO_PATTERN, bytes)?;
        try_regex_1(&mut result.ubuntu_gcc_version, UBUNTU_GCC_PATTERN, bytes)?;
        try_regex_1(&mut result.ubuntu_libc_version, UBUNTU_LIBC_PATTERN, bytes)?;
        try_regex_1(&mut result.ubuntu_libc_version, UBUNTU_LDSO_PATTERN, bytes)?;
        Ok(result)
    }
}

/// The lists of versions that are known, given the list for the compiler
/// and the list for the C library, each where its version was found.
pub open spec fn candidates(
    by_gcc: Option<Seq<Seq<char>>>,
    by_libc: Option<Seq<Seq<char>>>,
) -> Seq<Seq<Seq<char>>> {
    (match by_gcc {
        Some(l) => seq![l],
        None => Seq::empty(),
    }) + (match by_libc {
        Some(l) => seq![l],
        None => Seq::empty(),
    })
}

/// The version of Debian that a binary was built on, if what was found in
/// it agrees on one.
pub open spec fn debian_version(info: BinaryInfoView) -> Option<Seq<char>> {
    agreed(
        candidates(
            match info.debian_gcc_version {
                Some(v) => Some(debian_by_gcc(v)),
                None => None,
            },
            match info.debian_libc_version {
                Some(v) => Some(debian_by_libc(v)),
                None => None,
            },
        ),
    )
}

/// The version of Ubuntu that a binary was built on, if what was found in
/// it agrees on one.
pub open spec fn ubuntu_version(info: BinaryInfoView) -> Option<Seq<char>> {
    agreed(
        candidates(
            match info.ubuntu_gcc_version {
                Some(v) => Some(ubuntu_by_gcc(v)),
                None => None,
            },
            match info.ubuntu_libc_version {
                Some(v) => Some(ubuntu_by_libc(v)),
                None => None,
            },
        ),
    )
}

/// A list of versions that may be unknown, as plain sequences.
pub open spec fn list_view(o: Option<Vec<&'static str>>) -> Option<Seq<Seq<char>>> {
    match o {
        Some(l) => Some(segments_view(l@)),
        None => None,
    }
}

/// The version that the two lists agree on.
fn agree(by_gcc: Option<Vec<&'static str>>, by_libc: Option<Vec<&'static str>>) -> (r: Option<
    &'static str,
>)
    ensures
        static_view(r) == agreed(candidates(list_view(by_gcc), list_view(by_libc))),
{
    let mut both: Vec<Option<Vec<&'static str>>> = Vec::new();
    both.push(by_gcc);
    both.push(by_libc);
    proof {
        let c = both@;
        let c1 = c.drop_last();
        assert(c.last() == by_libc);
        assert(c1.last() == by_gcc);
        assert(c1.drop_last().len() == 0);
        assert(known(c1.drop_last()) =~= Seq::<Vec<&'static str>>::empty());
        let k1 = known(c1);
        assert(k1 =~= match by_gcc {
            Some(l) => seq![l],
            None => Seq::<Vec<&'static str>>::empty(),
        });
        let k = known(c);
        assert(k =~= k1 + match by_libc {
            Some(l) => seq![l],
            None => Seq::<Vec<&'static str>>::empty(),
        });
        assert(lists_view(k) =~= candidates(list_view(by_gcc), list_view(by_libc)));
    }
    get_distro_version(both)
}

/// The version of Debian that a binary was built on.
pub fn get_debian_version(info: &BinaryInfo) -> (r: Option<&'static str>)
    ensures
        static_view(r) == debian_version(info@),
{
    let by_gcc = match &info.debian_gcc_version {
        Some(v) => Some(get_debian_versions_by_gcc_version(v.as_str())),
        None => None,
    };
    let by_libc = match &info.debian_libc_version {
        Some(v) => Some(get_debian_versions_by_libc_version(v.as_str())),
        None => None,
    };
    agree(by_gcc, by_libc)
}

/// The version of Ubuntu that a binary was built on.
pub fn get_ubuntu_version(info: &BinaryInfo) -> (r: Option<&'static str>)
    ensures
        static_view(r) == ubuntu_version(info@),
{
    let by_gcc = match &info.ubuntu_gcc_version {
        Some(v) => Some(get_ubuntu_versions_by_gcc_version(v.as_str())),
        None => None,
    };
    let by_libc = match &info.ubuntu_libc_version {
        Some(v) => Some(get_ubuntu_versions_by_libc_version(v.as_str())),
        None => None,
    };
    agree(by_gcc, by_libc)
}

/// The architecture that packages are taken for: that of the header, or
/// `amd64` where there is no header or Debian has no name for it.
pub open spec fn arch_of(ehdr: Option<ElfHeader>) -> Seq<char> {
    match ehdr {
        Some(h) => match debian_arch(h) {
            Some(a) => a,
            None => DEFAULT_ARCH@,
        },
        None => DEFAULT_ARCH@,
    }
}

/// The packages that a binary asks for, given what was found in it: those
/// of the version of Debian that it was built on, or else of the version of
/// Ubuntu; none where neither is known.
pub open spec fn packages_of(info: BinaryInfoView) -> Option<PackagesView> {
    match debian_version(info) {
        Some(v) => Some(
            PackagesView {
                arch: Some(arch_of(info.ehdr)),
                distro: Some("debian"@),
                distro_version: Some(v),
                libc_version: info.debian_libc_version,
            },
        ),
        None => match ubuntu_version(info) {
            Some(v) => Some(
                PackagesView {
                    arch: Some(arch_of(info.ehdr)),
                    distro: Some("ubuntu"@),
                    distro_version: Some(v),
                    libc_version: info.ubuntu_libc_version,
                },
            ),
            None => None,
        },
    }
}

/// Packages that may be unknown, as plain values.
pub open spec fn packages_view(o: Option<Packages>) -> Option<PackagesView> {
    match o {
        Some(p) => Some(p@),
        None => None,
    }
}

/// The packages that a binary asks for, given what was found in it.
pub fn packages_from_info(info: BinaryInfo) -> (r: Option<Packages>)
    ensures
        packages_view(r) == packages_of(info@),
{
    let arch = match &info.ehdr {
        Some(h) => match get_debian_arch_str(h) {
            Some(a) => a,
            None => DEFAULT_ARCH,
        },
        None => DEFAULT_ARCH,
    };
    match get_debian_version(&info) {
        Some(v) => {
            return Some(
                Packages {
                    arch: Some(arch),
                    distro: Some("debian"),
                    distro_version: Some(v),
                    libc_version: info.debian_libc_version,
                },
            );
        },
        None => {},
    }
    match get_ubuntu_version(&info) {
        Some(v) => Some(
            Packages {
                arch: Some(arch),
                distro: Some("ubuntu"),
                distro_version: Some(v),
                libc_version: info.ubuntu_libc_version,
            },
        ),
        None => None,
    }
}

/// The packages that the binary with these bytes asks for.
pub fn get_packages(bytes: &[u8]) -> (r: Result<Option<Packages>, DistroError>)
    ensures
        match analysis(bytes@) {
            Ok(info) => r is Ok && packages_view(r->Ok_0) == packages_of(info),
            Err(f) => r is Err && r->Err_0@ == f,
        },
{
    let info = BinaryInfo::analyze(bytes)?;
    Ok(packages_from_info(info))
}

/// The first value, or else the second.
pub open spec fn or<T>(a: Option<T>, b: Option<T>) -> Option<T> {
    if a is Some {
        a
    } else {
        b
    }
}

/// The packages that the variants come to: of each field the first value
/// that a variant has.
pub open spec fn merged(variants: Seq<PackagesView>) -> PackagesView
    decreases variants.len(),
{
    if variants.len() == 0 {
        PackagesView { arch: None, distro: None, distro_version: None, libc_version: None }
    } else {
        let before = merged(variants.drop_last());
        let last = variants.last();
        PackagesView {
            arch: or(before.arch, last.arch),
            distro: or(before.distro, last.distro),
            distro_version: or(before.distro_version, last.distro_version),
            libc_version: or(before.libc_version, last.libc_version),
        }
    }
}

/// Merges what several binaries ask for: of each field the first value
/// that one of them has.
pub fn merge_packages_variants(packages_variants: Vec<Packages>) -> (r: Packages)
    ensures
        r@ == merged(packages_variants@.map_values(|p: Packages| p@)),
{
    let ghost all = packages_variants@.map_values(|p: Packages| p@);
    let mut packages = Packages {
        arch: None,
        distro: None,
        distro_version: None,
        libc_version: None,
    };
    for variant in it: packages_variants
        invariant
            all == packages_variants@.map_values(|p: Packages| p@),
            packages@ == merged(all.take(it.index() as int)),
    {
        let ghost i = it.index() as int;
        proof {
            assert(all.take(i + 1).drop_last() == all.take(i));
            assert(all.take(i + 1).last() == variant@);
        }
        if packages.arch.is_none() {
            packages.arch = variant.arch;
        }
        if packages.distro.is_none() {
            packages.distro = variant.distro;
        }
        if packages.distro_version.is_none() {
            packages.distro_version = variant.distro_version;
        }
        if packages.libc_version.is_none() {
            packages.libc_version = variant.libc_version;
        }
    }
    assert(all.take(all.len() as int) == all);
    packages
}

} // verus!
