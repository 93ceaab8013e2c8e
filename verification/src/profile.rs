//! App profiles: the JSON-facing shape of the profile the kernel keeps for one app,
//! and the conversions between it and the kernel's layout.
use vstd::prelude::*;
use vstd::utf8::*;
use crate::bitnames::{
    cap_prefix, capabilities, capability_names, flag_names, flags, lemma_capability_table,
    lemma_flag_table, name_char, name_table, plain_name, strs_view,
};
use crate::error::{CField, CStrError, IoctlError, KsuError, KsuErrorView, NameKind};
use crate::ksucalls;
use crate::ksucalls::{c_str_fault, c_str_text, c_str_written, zero_bytes};
use crate::text;
use crate::text::{decimal, parse_u32_spec, trim, upper_text};
use crate::uapi;
use crate::uapi::{
    Capabilities, Driver, IoctlCall, IoctlOutcome, KernelAppProfile, KernelAppProfileView,
    KernelRootProfile, KernelRootProfileView, NonRootConfig, RootConfig, RootConfigView,
};

verus! {

broadcast use vstd::string::group_string_axioms;

// ---------------------------------------------------------------------------
// Types
// ---------------------------------------------------------------------------

/// The profile the kernel keeps for one app, in the shape that is printed and read.
///
/// The kernel structure is a union: `allow_su` decides which half of it means anything,
/// so only the matching section is given out and only the matching one may be given back.
#[derive(Debug)]
pub struct AppProfile {
    /// Usually the package name; the kernel uses it for its own bookkeeping and looks
    /// profiles up by uid.
    pub key: String,
    /// The app's current uid. Left out, it is looked up from the package name.
    pub uid: Option<i32>,
    /// False when the kernel holds no profile for this app and what follows is only
    /// what it would fall back on. Ignored on input.
    pub stored: bool,
    pub allow_su: bool,
    pub root: Option<RootProfile>,
    pub non_root: Option<NonRootProfile>,
}

#[derive(Debug)]
pub struct RootProfile {
    /// Take the values from the default root profile rather than the ones below.
    pub use_default: bool,
    pub template: Option<String>,
    pub uid: i32,
    pub gid: i32,
    pub groups: Vec<i32>,
    /// Capability names, with or without the CAP_ prefix; a bare number is also accepted.
    pub capabilities: Vec<String>,
    pub selinux_domain: String,
    pub namespace: Namespace,
    pub flags: Vec<String>,
}

#[derive(Debug, Clone, Copy, PartialEq, Eq, Structural)]
pub struct NonRootProfile {
    /// Take the value from the default non-root profile rather than the one below.
    pub use_default: bool,
    pub umount_modules: bool,
}

/// The mount namespace a root app runs in.
#[derive(Debug, Clone, Copy, PartialEq, Eq, Structural)]
pub enum Namespace {
    Inherited,
    Global,
    Individual,
}

pub open spec fn strings_view(v: Seq<String>) -> Seq<Seq<char>> {
    v.map_values(|s: String| s@)
}

pub struct RootProfileView {
    pub use_default: bool,
    pub template: Option<Seq<char>>,
    pub uid: i32,
    pub gid: i32,
    pub groups: Seq<i32>,
    pub capabilities: Seq<Seq<char>>,
    pub selinux_domain: Seq<char>,
    pub namespace: Namespace,
    pub flags: Seq<Seq<char>>,
}

pub struct AppProfileView {
    pub key: Seq<char>,
    pub uid: Option<i32>,
    pub stored: bool,
    pub allow_su: bool,
    pub root: Option<RootProfileView>,
    pub non_root: Option<NonRootProfile>,
}

impl View for RootProfile {
    type V = RootProfileView;

    open spec fn view(&self) -> RootProfileView {
        RootProfileView {
            use_default: self.use_default,
            template: match self.template {
                Some(t) => Some(t@),
                None => None,
            },
            uid: self.uid,
            gid: self.gid,
            groups: self.groups@,
            capabilities: strings_view(self.capabilities@),
            selinux_domain: self.selinux_domain@,
            namespace: self.namespace,
            flags: strings_view(self.flags@),
        }
    }
}

impl View for AppProfile {
    type V = AppProfileView;

    open spec fn view(&self) -> AppProfileView {
        AppProfileView {
            key: self.key@,
            uid: self.uid,
            stored: self.stored,
            allow_su: self.allow_su,
            root: match self.root {
                Some(r) => Some(r@),
                None => None,
            },
            non_root: self.non_root,
        }
    }
}

// ---------------------------------------------------------------------------
// Namespaces
// ---------------------------------------------------------------------------

/// The namespace the kernel's number stands for.
pub open spec fn namespace_of(value: i32) -> Option<Namespace> {
    if value == 0 {
        Some(Namespace::Inherited)
    } else if value == 1 {
        Some(Namespace::Global)
    } else if value == 2 {
        Some(Namespace::Individual)
    } else {
        None
    }
}

/// The kernel's number for a namespace.
pub open spec fn namespace_number(ns: Namespace) -> i32 {
    match ns {
        Namespace::Inherited => 0,
        Namespace::Global => 1,
        Namespace::Individual => 2,
    }
}

impl Namespace {
    /// The namespace the kernel reported; a number this build does not know is an error.
    pub fn from_kernel(value: i32) -> (r: Result<Namespace, KsuError>)
        ensures
            match namespace_of(value) {
                Some(ns) => r == Ok::<Namespace, KsuError>(ns),
                None => r == Err::<Namespace, KsuError>(KsuError::UnknownNamespace(value)),
            },
    {
        match value {
            0 => Ok(Namespace::Inherited),
            1 => Ok(Namespace::Global),
            2 => Ok(Namespace::Individual),
            other => Err(KsuError::UnknownNamespace(other)),
        }
    }

    /// The kernel's number for this namespace.
    pub fn to_kernel(self) -> (r: i32)
        ensures
            r == namespace_number(self),
    {
        match self {
            Namespace::Inherited => 0,
            Namespace::Global => 1,
            Namespace::Individual => 2,
        }
    }
}

/// The namespace numbering is a bijection between the three namespaces and 0, 1, 2:
/// reading back the number of a namespace gives the namespace, and a number that reads
/// as a namespace is that namespace's number.
pub proof fn lemma_namespace_round_trip(ns: Namespace, value: i32)
    ensures
        namespace_of(namespace_number(ns)) == Some(ns),
        namespace_of(value) matches Some(n) ==> namespace_number(n) == value,
        namespace_of(value) is Some <==> 0 <= value <= 2,
{
}

/// Bit `i` of `bits` is set.
pub open spec fn bit_set(bits: u64, i: int) -> bool {
    bits & (1u64 << (i as u64)) != 0
}

/// The names, from index `i` on, whose bits are set.
pub open spec fn known_names(bits: u64, names: Seq<Seq<char>>, i: int) -> Seq<Seq<char>>
    decreases names.len() - i,
{
    if i < 0 || i >= names.len() {
        seq![]
    } else {
        (if bit_set(bits, i) {
            seq![names[i]]
        } else {
            seq![]
        }) + known_names(bits, names, i + 1)
    }
}

/// The decimal numbers of the set bits from `i` up to 63.
pub open spec fn numbered_bits(bits: u64, i: int) -> Seq<Seq<char>>
    decreases 64 - i,
{
    if i < 0 || i >= 64 {
        seq![]
    } else {
        (if bit_set(bits, i) {
            seq![decimal(i as nat)]
        } else {
            seq![]
        }) + numbered_bits(bits, i + 1)
    }
}

/// The names of the bits set in `bits`: the named bits in order, then the number of
/// each set bit that has no name, so that no bit vanishes on a round trip.
pub open spec fn names_of_bits(bits: u64, names: Seq<Seq<char>>) -> Seq<Seq<char>> {
    known_names(bits, names, 0) + numbered_bits(bits, names.len() as int)
}

proof fn lemma_strings_view_push(v: Seq<String>, s: String)
    ensures
        strings_view(v.push(s)) == strings_view(v).push(s@),
{
    assert(strings_view(v.push(s)) =~= strings_view(v).push(s@));
}

/// The names of the bits set in `bits`.
pub fn names_from_bits(bits: u64, names: &Vec<&str>) -> (r: Vec<String>)
    requires
        names@.len() <= 64,
    ensures
        strings_view(r@) == names_of_bits(bits, strs_view(names@)),
{
    let ghost table = strs_view(names@);
    let mut out: Vec<String> = Vec::new();
    let mut i: usize = 0;
    while i < names.len()
        invariant
            i <= names@.len() <= 64,
            table == strs_view(names@),
            strings_view(out@) + known_names(bits, table, i as int) == known_names(bits, table, 0),
        decreases names.len() - i,
    {
        if bits & (1u64 << (i as u64)) != 0 {
            let name = names[i].to_owned();
            proof {
                lemma_strings_view_push(out@, name);
            }
            out.push(name);
        }
        assert(strings_view(out@) + known_names(bits, table, i + 1) =~= known_names(bits, table, 0));
        i += 1;
    }
    assert(known_names(bits, table, i as int) =~= seq![]);
    let mut bit: usize = names.len();
    while bit < 64
        invariant
            names@.len() <= bit <= 64,
            table == strs_view(names@),
            strings_view(out@) + numbered_bits(bits, bit as int) == names_of_bits(bits, table),
        decreases 64 - bit,
    {
        if bits & (1u64 << (bit as u64)) != 0 {
            let mut digits: Vec<char> = Vec::new();
            text::push_decimal(&mut digits, bit as u64);
            assert(digits@ =~= decimal(bit as nat));
            let number = text::string_of(&digits);
            proof {
                lemma_strings_view_push(out@, number);
            }
            out.push(number);
        }
        assert(strings_view(out@) + numbered_bits(bits, bit + 1) =~= names_of_bits(bits, table));
        bit += 1;
    }
    assert(numbered_bits(bits, 64) =~= seq![]);
    assert(strings_view(out@) =~= names_of_bits(bits, table));
    out
}

/// The text with every leading `CAP_` removed (`str::trim_start_matches("CAP_")`).
pub open spec fn strip_cap_prefix(s: Seq<char>) -> Seq<char>
    decreases s.len(),
{
    if s.len() >= 4 && s.take(4) == cap_prefix() {
        strip_cap_prefix(s.skip(4))
    } else {
        s
    }
}

/// The name a value is looked up by: trimmed, without `CAP_` prefixes, upper case.
pub open spec fn wanted_name(v: Seq<char>) -> Seq<char> {
    upper_text(strip_cap_prefix(trim(v)))
}

/// The first index, from `i` on, of a name equal to `w`.
pub open spec fn first_index(names: Seq<Seq<char>>, w: Seq<char>, i: int) -> Option<int>
    decreases names.len() - i,
{
    if i < 0 || i >= names.len() {
        None
    } else if names[i] == w {
        Some(i)
    } else {
        first_index(names, w, i + 1)
    }
}

proof fn lemma_first_index_bound(names: Seq<Seq<char>>, w: Seq<char>, i: int)
    ensures
        first_index(names, w, i) matches Some(k) ==> 0 <= i <= k < names.len() && names[k] == w,
    decreases names.len() - i,
{
    if 0 <= i < names.len() && names[i] != w {
        lemma_first_index_bound(names, w, i + 1);
    }
}

/// The bit a value names: a number as such, else the position of the name.
pub open spec fn name_bit(v: Seq<char>, names: Seq<Seq<char>>) -> Option<int> {
    match parse_u32_spec(wanted_name(v)) {
        Some(b) => Some(b as int),
        None => first_index(names, wanted_name(v), 0),
    }
}

/// The mask the values name, added to `acc`, or the first value that names no bit or
/// a bit beyond 63.
pub open spec fn bits_of_names(
    values: Seq<Seq<char>>,
    names: Seq<Seq<char>>,
    kind: NameKind,
    acc: u64,
) -> Result<u64, KsuErrorView>
    decreases values.len(),
{
    if values.len() == 0 {
        Ok(acc)
    } else {
        match name_bit(values[0], names) {
            None => Err(KsuErrorView::UnknownName { kind, value: values[0] }),
            Some(b) => if b >= 64 {
                Err(KsuErrorView::OutOfRange { kind, value: values[0] })
            } else {
                bits_of_names(values.drop_first(), names, kind, acc | (1u64 << (b as u64)))
            },
        }
    }
}

pub open spec fn mask_view(r: Result<u64, KsuError>) -> Result<u64, KsuErrorView> {
    match r {
        Ok(b) => Ok(b),
        Err(e) => Err(e@),
    }
}

/// `str::trim_start_matches("CAP_")` on a character vector.
fn strip_cap_chars(v: &Vec<char>) -> (r: Vec<char>)
    ensures
        r@ == strip_cap_prefix(v@),
{
    let n = v.len();
    let mut i: usize = 0;
    assert(v@.skip(0) =~= v@);
    while n >= 4 && i <= n - 4 && v[i] == 'C' && v[i + 1] == 'A' && v[i + 2] == 'P' && v[i + 3] == '_'
        invariant
            i <= n == v.len(),
            strip_cap_prefix(v@) == strip_cap_prefix(v@.skip(i as int)),
        decreases n - i,
    {
        let ghost t = v@.skip(i as int);
        assert(t.take(4) =~= cap_prefix());
        assert(t.skip(4) =~= v@.skip(i + 4));
        i += 4;
    }
    let ghost t = v@.skip(i as int);
    assert(t.len() >= 4 ==> t.take(4) != cap_prefix()) by {
        if t.len() >= 4 && t.take(4) == cap_prefix() {
            assert(t.take(4)[0] == v@[i as int]);
            assert(t.take(4)[1] == v@[i + 1]);
            assert(t.take(4)[2] == v@[i + 2]);
            assert(t.take(4)[3] == v@[i + 3]);
        }
    }
    text::slice_chars(v, i, n)
}

/// The position of the first name equal to `wanted`.
fn position_of(names: &Vec<&str>, wanted: &str) -> (r: Option<usize>)
    ensures
        match first_index(strs_view(names@), wanted@, 0) {
            Some(i) => r matches Some(p) && p as int == i,
            None => r is None,
        },
{
    let ghost table = strs_view(names@);
    proof {
        lemma_first_index_bound(table, wanted@, 0);
    }
    let mut j: usize = 0;
    while j < names.len()
        invariant
            j <= names@.len(),
            table == strs_view(names@),
            first_index(table, wanted@, 0) == first_index(table, wanted@, j as int),
        decreases names.len() - j,
    {
        if text::str_eq(names[j], wanted) {
            return Some(j);
        }
        j += 1;
    }
    None
}

/// The mask of bits that the values name. A value is trimmed, loses any `CAP_`
/// prefix and is upper-cased; a number names its bit directly.
pub fn bits_from_names(values: &Vec<String>, names: &Vec<&str>, what: NameKind) -> (r: Result<
    u64,
    KsuError,
>)
    ensures
        mask_view(r) == bits_of_names(strings_view(values@), strs_view(names@), what, 0),
{
    let ghost table = strs_view(names@);
    let ghost vals = strings_view(values@);
    let mut bits: u64 = 0;
    let mut i: usize = 0;
    assert(vals.skip(0) =~= vals);
    while i < values.len()
        invariant
            i <= values@.len(),
            table == strs_view(names@),
            vals == strings_view(values@),
            bits_of_names(vals, table, what, 0) == bits_of_names(vals.skip(i as int), table, what, bits),
        decreases values.len() - i,
    {
        let value = &values[i];
        let ghost rest = vals.skip(i as int);
        assert(rest[0] == value@);
        assert(rest.drop_first() =~= vals.skip(i + 1));
        let raw = text::chars_of(value.as_str());
        let trimmed = text::trim_chars(&raw);
        let stripped = strip_cap_chars(&trimmed);
        let joined = text::string_of(&stripped);
        let wanted = text::to_uppercase(joined.as_str());
        let wanted_chars = text::chars_of(wanted.as_str());
        assert(wanted@ == wanted_name(value@));
        let bit: u64 = match text::parse_u32(&wanted_chars) {
            Some(b) => {
                assert(name_bit(value@, table) == Some(b as int));
                b as u64
            },
            None => match position_of(names, wanted.as_str()) {
                Some(p) => {
                    assert(name_bit(value@, table) == Some(p as int));
                    p as u64
                },
                None => {
                    return Err(KsuError::UnknownName { kind: what, value: value.clone() });
                },
            },
        };
        if bit >= 64 {
            return Err(KsuError::OutOfRange { kind: what, value: value.clone() });
        }
        assert(((bit as int) as u64) == bit);
        bits = bits | (1u64 << bit);
        i += 1;
    }
    assert(vals.skip(i as int) =~= seq![]);
    Ok(bits)
}

// ---------------------------------------------------------------------------
// Kernel profile to printed profile
// ---------------------------------------------------------------------------

/// The groups a kernel root profile holds: as many as it counts, and no more than
/// it has room for.
pub open spec fn groups_taken(p: KernelRootProfileView) -> Seq<i32> {
    let n = if (p.groups_count as int) < p.groups.len() {
        p.groups_count as int
    } else {
        p.groups.len() as int
    };
    p.groups.take(n)
}

/// The template a root profile names, if any.
pub open spec fn template_of(b: Seq<u8>) -> Option<Seq<char>> {
    if c_str_text(b).len() > 0 {
        Some(c_str_text(b))
    } else {
        None
    }
}

/// The printed shape of a kernel profile. Only the half of the union that `allow_su`
/// selects is read; the root half gives only its effective capabilities, from which
/// the kernel derives the rest.
pub open spec fn from_kernel_view(k: KernelAppProfileView, stored: bool) -> Result<
    AppProfileView,
    KsuErrorView,
> {
    if k.allow_su {
        let rp = k.rp_config;
        match namespace_of(rp.profile.namespaces) {
            None => Err(KsuErrorView::UnknownNamespace(rp.profile.namespaces)),
            Some(ns) => Ok(
                AppProfileView {
                    key: c_str_text(k.key),
                    uid: Some(k.curr_uid),
                    stored,
                    allow_su: true,
                    root: Some(
                        RootProfileView {
                            use_default: rp.use_default,
                            template: template_of(rp.template_name),
                            uid: rp.profile.uid,
                            gid: rp.profile.gid,
                            groups: groups_taken(rp.profile),
                            capabilities: names_of_bits(
                                rp.profile.capabilities.effective,
                                capability_names(),
                            ),
                            selinux_domain: c_str_text(rp.profile.selinux_domain),
                            namespace: ns,
                            flags: names_of_bits(rp.profile.flags, flag_names()),
                        },
                    ),
                    non_root: None,
                },
            ),
        }
    } else {
        Ok(
            AppProfileView {
                key: c_str_text(k.key),
                uid: Some(k.curr_uid),
                stored,
                allow_su: false,
                root: None,
                non_root: Some(
                    NonRootProfile {
                        use_default: k.nrp_config.use_default,
                        umount_modules: k.nrp_config.umount_modules,
                    },
                ),
            },
        )
    }
}

pub open spec fn app_result_view(r: Result<AppProfile, KsuError>) -> Result<AppProfileView, KsuErrorView> {
    match r {
        Ok(p) => Ok(p@),
        Err(e) => Err(e@),
    }
}

fn copy_groups(groups: &Vec<i32>, count: u32) -> (r: Vec<i32>)
    ensures
        r@ == (if (count as int) < groups@.len() {
            groups@.take(count as int)
        } else {
            groups@
        }),
{
    let n: usize = if (count as usize) < groups.len() {
        count as usize
    } else {
        groups.len()
    };
    let mut out: Vec<i32> = Vec::new();
    let mut i: usize = 0;
    while i < n
        invariant
            i <= n <= groups@.len(),
            out@ == groups@.take(i as int),
        decreases n - i,
    {
        out.push(groups[i]);
        i += 1;
        assert(out@ =~= groups@.take(i as int));
    }
    assert(n == groups@.len() ==> groups@.take(n as int) =~= groups@);
    out
}

/// Reads a kernel profile into the shape that is printed.
pub fn from_kernel(profile: &KernelAppProfile, stored: bool) -> (r: Result<AppProfile, KsuError>)
    ensures
        app_result_view(r) == from_kernel_view(profile@, stored),
{
    let key = ksucalls::read_c_str(&profile.key);
    let allow_su = profile.allow_su;
    if allow_su {
        let rp = &profile.rp_config;
        let template = ksucalls::read_c_str(&rp.template_name);
        let groups = copy_groups(&rp.profile.groups, rp.profile.groups_count);
        assert(groups@ =~= groups_taken(rp.profile@));
        let capabilities = names_from_bits(rp.profile.capabilities.effective, &capabilities());
        let selinux_domain = ksucalls::read_c_str(&rp.profile.selinux_domain);
        let namespace = match Namespace::from_kernel(rp.profile.namespaces) {
            Ok(ns) => ns,
            Err(e) => return Err(e),
        };
        let flags = names_from_bits(rp.profile.flags, &flags());
        let template = if template.as_str().is_empty() {
            None
        } else {
            Some(template)
        };
        Ok(
            AppProfile {
                key,
                uid: Some(profile.curr_uid),
                stored,
                allow_su,
                root: Some(
                    RootProfile {
                        use_default: rp.use_default,
                        template,
                        uid: rp.profile.uid,
                        gid: rp.profile.gid,
                        groups,
                        capabilities,
                        selinux_domain,
                        namespace,
                        flags,
                    },
                ),
                non_root: None,
            },
        )
    } else {
        let nrp = profile.nrp_config;
        Ok(
            AppProfile {
                key,
                uid: Some(profile.curr_uid),
                stored,
                allow_su,
                root: None,
                non_root: Some(
                    NonRootProfile { use_default: nrp.use_default, umount_modules: nrp.umount_modules },
                ),
            },
        )
    }
}

// ---------------------------------------------------------------------------
// Printed profile to kernel profile
// ---------------------------------------------------------------------------

/// The root half of the union laid out for the kernel, or the first field that does not
/// fit: the template, the groups, the capabilities, the SELinux domain, the flags.
pub open spec fn root_config_for(root: RootProfileView) -> Result<RootConfigView, KsuErrorView> {
    let z = uapi::zero_root_config();
    let template_fault = match root.template {
        Some(t) => c_str_fault(uapi::KSU_MAX_PACKAGE_NAME as nat, t),
        None => None,
    };
    if template_fault is Some {
        Err(KsuErrorView::CString { field: CField::Template, error: template_fault->0 })
    } else if root.groups.len() > uapi::KSU_MAX_GROUPS {
        Err(
            KsuErrorView::TooManyGroups {
                given: root.groups.len() as usize,
                max: uapi::KSU_MAX_GROUPS,
            },
        )
    } else {
        match bits_of_names(root.capabilities, capability_names(), NameKind::Capability, 0) {
            Err(e) => Err(e),
            Ok(caps) => match c_str_fault(uapi::KSU_SELINUX_DOMAIN as nat, root.selinux_domain) {
                Some(e) => Err(KsuErrorView::CString { field: CField::SelinuxDomain, error: e }),
                None => match bits_of_names(root.flags, flag_names(), NameKind::Flag, 0) {
                    Err(e) => Err(e),
                    Ok(fl) => Ok(
                        RootConfigView {
                            use_default: root.use_default,
                            template_name: match root.template {
                                Some(t) => c_str_written(z.template_name, t),
                                None => z.template_name,
                            },
                            profile: KernelRootProfileView {
                                uid: root.uid,
                                gid: root.gid,
                                groups_count: root.groups.len() as u32,
                                groups: root.groups + z.profile.groups.skip(root.groups.len() as int),
                                capabilities: Capabilities { effective: caps, permitted: 0, inheritable: 0 },
                                selinux_domain: c_str_written(
                                    z.profile.selinux_domain,
                                    root.selinux_domain,
                                ),
                                namespaces: namespace_number(root.namespace),
                                flags: fl,
                            },
                        },
                    ),
                },
            },
        }
    }
}

/// The kernel layout of a printed profile for `uid`, or why there is none: the key does
/// not fit, the sections do not match `allow_su`, or a root field does not fit.
pub open spec fn to_kernel_view(w: AppProfileView, uid: i32) -> Result<KernelAppProfileView, KsuErrorView> {
    match ksucalls::key_fault(w.key) {
        Some(e) => Err(KsuErrorView::CString { field: CField::PackageName, error: e }),
        None => {
            let base = ksucalls::new_profile_view(w.key, uid);
            if w.root is Some && w.non_root is Some {
                Err(KsuErrorView::BothSections)
            } else if w.allow_su && w.root is None {
                Err(KsuErrorView::MissingRoot)
            } else if !w.allow_su && w.non_root is None {
                Err(KsuErrorView::MissingNonRoot)
            } else if w.allow_su {
                match root_config_for(w.root->0) {
                    Err(e) => Err(e),
                    Ok(rp) => Ok(
                        KernelAppProfileView {
                            version: base.version,
                            key: base.key,
                            curr_uid: base.curr_uid,
                            allow_su: true,
                            rp_config: rp,
                            nrp_config: base.nrp_config,
                        },
                    ),
                }
            } else {
                Ok(
                    KernelAppProfileView {
                        version: base.version,
                        key: base.key,
                        curr_uid: base.curr_uid,
                        allow_su: false,
                        rp_config: base.rp_config,
                        nrp_config: NonRootConfig {
                            use_default: w.non_root->0.use_default,
                            umount_modules: w.non_root->0.umount_modules,
                        },
                    },
                )
            }
        },
    }
}

pub open spec fn kernel_result_view(r: Result<KernelAppProfile, KsuError>) -> Result<
    KernelAppProfileView,
    KsuErrorView,
> {
    match r {
        Ok(p) => Ok(p@),
        Err(e) => Err(e@),
    }
}

fn root_config(root: &RootProfile) -> (r: Result<RootConfig, KsuError>)
    ensures
        match r {
            Ok(c) => root_config_for(root@) == Ok::<RootConfigView, KsuErrorView>(c@),
            Err(e) => root_config_for(root@) == Err::<RootConfigView, KsuErrorView>(e@),
        },
{
    let mut rp = RootConfig::zeroed();
    rp.use_default = root.use_default;
    match &root.template {
        Some(template) => {
            match ksucalls::write_c_str(&mut rp.template_name, template.as_str()) {
                Ok(()) => {},
                Err(e) => return Err(KsuError::CString { field: CField::Template, error: e }),
            }
        },
        None => {},
    }
    rp.profile.uid = root.uid;
    rp.profile.gid = root.gid;
    if root.groups.len() > rp.profile.groups.len() {
        return Err(
            KsuError::TooManyGroups { given: root.groups.len(), max: rp.profile.groups.len() },
        );
    }
    rp.profile.groups_count = root.groups.len() as u32;
    let ghost zero_groups = rp.profile.groups@;
    let ghost before = rp@;
    let mut i: usize = 0;
    while i < root.groups.len()
        invariant
            i <= root.groups@.len() <= rp.profile.groups@.len() == zero_groups.len(),
            rp.use_default == before.use_default,
            rp.template_name@ == before.template_name,
            rp.profile.uid == before.profile.uid,
            rp.profile.gid == before.profile.gid,
            rp.profile.groups_count == before.profile.groups_count,
            rp.profile.capabilities == before.profile.capabilities,
            rp.profile.selinux_domain@ == before.profile.selinux_domain,
            rp.profile.namespaces == before.profile.namespaces,
            rp.profile.flags == before.profile.flags,
            rp.profile.groups@ == root.groups@.take(i as int) + zero_groups.skip(i as int),
        decreases root.groups.len() - i,
    {
        rp.profile.groups.set(i, root.groups[i]);
        i += 1;
        assert(rp.profile.groups@ =~= root.groups@.take(i as int) + zero_groups.skip(i as int));
    }
    assert(root.groups@.take(i as int) =~= root.groups@);
    rp.profile.capabilities.effective = match bits_from_names(
        &root.capabilities,
        &capabilities(),
        NameKind::Capability,
    ) {
        Ok(b) => b,
        Err(e) => return Err(e),
    };
    match ksucalls::write_c_str(&mut rp.profile.selinux_domain, root.selinux_domain.as_str()) {
        Ok(()) => {},
        Err(e) => return Err(KsuError::CString { field: CField::SelinuxDomain, error: e }),
    }
    rp.profile.namespaces = root.namespace.to_kernel();
    rp.profile.flags = match bits_from_names(&root.flags, &flags(), NameKind::Flag) {
        Ok(b) => b,
        Err(e) => return Err(e),
    };
    Ok(rp)
}

/// Lays a printed profile out for the kernel. `allow_su` decides which half of the
/// union is filled in; the other stays zero.
pub fn to_kernel(wanted: &AppProfile, uid: i32) -> (r: Result<KernelAppProfile, KsuError>)
    ensures
        kernel_result_view(r) == to_kernel_view(wanted@, uid),
{
    let mut profile = match ksucalls::new_profile(wanted.key.as_str(), uid) {
        Ok(p) => p,
        Err(e) => return Err(e),
    };
    profile.allow_su = wanted.allow_su;
    match (&wanted.root, &wanted.non_root) {
        (Some(_), Some(_)) => Err(KsuError::BothSections),
        (None, _) if wanted.allow_su => Err(KsuError::MissingRoot),
        (_, None) if !wanted.allow_su => Err(KsuError::MissingNonRoot),
        (Some(root), None) => {
            let rp = match root_config(root) {
                Ok(rp) => rp,
                Err(e) => return Err(e),
            };
            profile.rp_config = rp;
            Ok(profile)
        },
        (None, Some(non_root)) => {
            profile.nrp_config = NonRootConfig {
                use_default: non_root.use_default,
                umount_modules: non_root.umount_modules,
            };
            Ok(profile)
        },
        (None, None) => Err(KsuError::MissingRoot),
    }
}

// ---------------------------------------------------------------------------
// Addressing an app
// ---------------------------------------------------------------------------

/// The key the kernel files the default non-root profile under.
pub open spec fn default_non_root_key() -> Seq<char> {
    "$"@
}

/// The uid that goes with the default non-root profile.
pub const DEFAULT_NON_ROOT_UID: i32 = 9999;

/// The uid that the first line about `package` gives, among the lines of a package
/// list ("<package> <uid> ..." per line).
pub open spec fn package_uid_in(lines: Seq<Seq<char>>, package: Seq<char>) -> Result<i32, KsuErrorView>
    decreases lines.len(),
{
    if lines.len() == 0 {
        Err(KsuErrorView::NoSuchPackage(package))
    } else {
        let fields = text::words(lines[0]);
        if fields.len() > 0 && fields[0] == package {
            if fields.len() < 2 {
                Err(KsuErrorView::PackageListNoUid)
            } else {
                match text::parse_i32_spec(fields[1]) {
                    Some(uid) => Ok(uid),
                    None => Err(KsuErrorView::PackageListBadUid(fields[1])),
                }
            }
        } else {
            package_uid_in(lines.drop_first(), package)
        }
    }
}

/// The uid a package list gives a package.
pub open spec fn package_uid(list: Seq<char>, package: Seq<char>) -> Result<i32, KsuErrorView> {
    package_uid_in(text::split_lines(list), package)
}

pub open spec fn uid_view(r: Result<i32, KsuError>) -> Result<i32, KsuErrorView> {
    match r {
        Ok(u) => Ok(u),
        Err(e) => Err(e@),
    }
}

/// The uid Android currently gives a package, read from the system's package list:
/// one "<package> <uid> ..." per line.
pub fn uid_of_package(list: &str, package: &str) -> (r: Result<i32, KsuError>)
    ensures
        uid_view(r) == package_uid(list@, package@),
{
    let v = text::chars_of(list);
    let want = text::chars_of(package);
    let n = v.len();
    let mut start: usize = 0;
    assert(v@.skip(0) =~= v@);
    loop
        invariant
            start <= n == v@.len(),
            v@ == list@,
            want@ == package@,
            package_uid(list@, package@) == package_uid_in(
                text::split_lines(v@.skip(start as int)),
                package@,
            ),
        decreases n - start,
    {
        let mut end = start;
        while end < n && v[end] != '\n'
            invariant
                start <= end <= n == v@.len(),
                forall|k: int| start <= k < end ==> #[trigger] v@[k] != '\n',
            decreases n - end,
        {
            end += 1;
        }
        let line = text::slice_chars(&v, start, end);
        let ghost rest = v@.skip(start as int);
        proof {
            text::lemma_line_len_at(v@, start as int, end as int);
            assert(rest.take(text::line_len(rest) as int) =~= line@);
            if end < n {
                assert(rest.skip(text::line_len(rest) as int + 1) =~= v@.skip(end + 1));
            }
            assert(text::split_lines(rest)[0] == line@);
            assert(end < n ==> text::split_lines(rest).drop_first() =~= text::split_lines(v@.skip(end + 1)));
            assert(end == n ==> text::split_lines(rest).drop_first() =~= seq![]);
        }
        let fields = text::split_words(&line);
        if fields.len() > 0 && text::chars_eq(&fields[0], &want) {
            if fields.len() < 2 {
                return Err(KsuError::PackageListNoUid);
            }
            return match text::parse_i32(&fields[1]) {
                Some(uid) => Ok(uid),
                None => Err(KsuError::PackageListBadUid(text::string_of(&fields[1]))),
            };
        }
        if end == n {
            assert(package_uid_in(text::split_lines(rest).drop_first(), package@) == Err::<
                i32,
                KsuErrorView,
            >(KsuErrorView::NoSuchPackage(package@)));
            return Err(KsuError::NoSuchPackage(package.to_owned()));
        }
        start = end + 1;
    }
}

/// `u` is a uid that addressing `key` can settle on: the one given, the default
/// profile's for its key, or the package list's for the package.
pub open spec fn resolved_uid<R: Fn() -> Result<String, String>>(
    key: Seq<char>,
    given: Option<i32>,
    read_list: &R,
    u: Result<i32, KsuErrorView>,
) -> bool {
    match given {
        Some(uid) => u == Ok::<i32, KsuErrorView>(uid),
        None => if key == default_non_root_key() {
            u == Ok::<i32, KsuErrorView>(DEFAULT_NON_ROOT_UID)
        } else {
            exists|t: Result<String, String>| #[trigger]
                read_list.ensures((), t) && u == match t {
                    Ok(list) => package_uid(list@, key),
                    Err(why) => Err(KsuErrorView::PackageListUnreadable(why@)),
                }
        },
    }
}

/// The uid to address `key` under: the one given, else the default profile's when
/// `key` names it, else the package's, from the list `read_list` reads.
pub fn resolve_uid<R: Fn() -> Result<String, String>>(
    key: &str,
    given: Option<i32>,
    read_list: &R,
) -> (r: Result<i32, KsuError>)
    requires
        read_list.requires(()),
    ensures
        resolved_uid(key@, given, read_list, uid_view(r)),
{
    match given {
        Some(uid) => Ok(uid),
        None => {
            if text::str_eq(key, "$") {
                Ok(DEFAULT_NON_ROOT_UID)
            } else {
                match read_list() {
                    Ok(list) => uid_of_package(list.as_str(), key),
                    Err(why) => Err(KsuError::PackageListUnreadable(why)),
                }
            }
        },
    }
}

// ---------------------------------------------------------------------------
// Reading and setting a profile
// ---------------------------------------------------------------------------

/// The profile the kernel falls back on for an app it holds none for.
pub open spec fn fallback_view(key: Seq<char>, uid: i32, umount_modules: bool) -> AppProfileView {
    AppProfileView {
        key,
        uid: Some(uid),
        stored: false,
        allow_su: false,
        root: None,
        non_root: Some(NonRootProfile { use_default: true, umount_modules }),
    }
}

/// `r` is what the fallback for `key` can be: for the default key, unmounting;
/// otherwise whatever the stored default non-root profile says, unmounting when there
/// is none or it is a root profile.
pub open spec fn fallback_outcome<F: Fn(i32, IoctlCall) -> IoctlOutcome>(
    drv: &Driver<F>,
    key: Seq<char>,
    uid: i32,
    r: Result<AppProfileView, KsuErrorView>,
) -> bool {
    if key == default_non_root_key() {
        r == Ok::<AppProfileView, KsuErrorView>(fallback_view(key, uid, true))
    } else {
        exists|l| #[trigger]
            ksucalls::lookup_outcome(drv, default_non_root_key(), DEFAULT_NON_ROOT_UID, l) && match l {
                Err(e) => r == Err::<AppProfileView, KsuErrorView>(e@),
                Ok(Some(k)) => r == Ok::<AppProfileView, KsuErrorView>(
                    fallback_view(key, uid, if k.allow_su { true } else { k.nrp_config.umount_modules }),
                ),
                Ok(None) => r == Ok::<AppProfileView, KsuErrorView>(fallback_view(key, uid, true)),
            }
    }
}

/// What the kernel falls back on for an app it holds no profile for.
pub fn fallback_profile<F: Fn(i32, IoctlCall) -> IoctlOutcome>(
    drv: &Driver<F>,
    key: &str,
    uid: i32,
) -> (r: Result<AppProfile, KsuError>)
    requires
        drv.callable(),
    ensures
        fallback_outcome(drv, key@, uid, app_result_view(r)),
{
    let umount_modules = if text::str_eq(key, "$") {
        true
    } else {
        match ksucalls::get_app_profile(drv, "$", DEFAULT_NON_ROOT_UID) {
            Err(e) => return Err(e),
            Ok(Some(profile)) => {
                if !profile.allow_su {
                    profile.nrp_config.umount_modules
                } else {
                    true
                }
            },
            Ok(None) => true,
        }
    };
    Ok(
        AppProfile {
            key: key.to_owned(),
            uid: Some(uid),
            stored: false,
            allow_su: false,
            root: None,
            non_root: Some(NonRootProfile { use_default: true, umount_modules }),
        },
    )
}

/// `r` is what reading the profile of `key` can give, for a uid `uid` already settled:
/// the stored profile in printed shape, or the fallback when none is stored.
pub open spec fn read_outcome<F: Fn(i32, IoctlCall) -> IoctlOutcome>(
    drv: &Driver<F>,
    key: Seq<char>,
    uid: i32,
    r: Result<AppProfileView, KsuErrorView>,
) -> bool {
    exists|l| #[trigger]
        ksucalls::lookup_outcome(drv, key, uid, l) && match l {
            Err(e) => r == Err::<AppProfileView, KsuErrorView>(e@),
            Ok(Some(k)) => r == from_kernel_view(k, true),
            Ok(None) => fallback_outcome(drv, key, uid, r),
        }
}

/// The profile of one app, in the shape that is printed: the stored one, or what the
/// kernel falls back on.
pub fn get_profile<F: Fn(i32, IoctlCall) -> IoctlOutcome, R: Fn() -> Result<String, String>>(
    drv: &Driver<F>,
    key: &str,
    uid: Option<i32>,
    read_list: &R,
) -> (r: Result<AppProfile, KsuError>)
    requires
        drv.callable(),
        read_list.requires(()),
    ensures
        exists|u| #[trigger]
            resolved_uid(key@, uid, read_list, u) && match u {
                Err(e) => app_result_view(r) == Err::<AppProfileView, KsuErrorView>(e),
                Ok(resolved) => read_outcome(drv, key@, resolved, app_result_view(r)),
            },
{
    let resolved = resolve_uid(key, uid, read_list);
    let uid = match resolved {
        Ok(u) => u,
        Err(e) => return Err(e),
    };
    match ksucalls::get_app_profile(drv, key, uid) {
        Err(e) => Err(e),
        Ok(Some(profile)) => from_kernel(&profile, true),
        Ok(None) => fallback_profile(drv, key, uid),
    }
}

/// `r` is what setting `wanted` can give, for a uid `uid` already settled: the
/// layout's fault, or what storing the layout answers.
pub open spec fn store_outcome<F: Fn(i32, IoctlCall) -> IoctlOutcome>(
    drv: &Driver<F>,
    wanted: AppProfileView,
    uid: i32,
    r: Result<(), KsuErrorView>,
) -> bool {
    match to_kernel_view(wanted, uid) {
        Err(e) => r == Err::<(), KsuErrorView>(e),
        Ok(k) => exists|a| #[trigger]
            ksucalls::runs(
                drv,
                ksucalls::call_view(uapi::KSU_IOCTL_SET_APP_PROFILE, uapi::PayloadView::AppProfile(k)),
                a,
            ) && r == match ksucalls::profile_store(a) {
                Ok(()) => Ok::<(), KsuErrorView>(()),
                Err(e) => Err(e@),
            },
    }
}

pub open spec fn unit_view(r: Result<(), KsuError>) -> Result<(), KsuErrorView> {
    match r {
        Ok(()) => Ok(()),
        Err(e) => Err(e@),
    }
}

/// Sets the profile of one app.
pub fn set_profile<F: Fn(i32, IoctlCall) -> IoctlOutcome, R: Fn() -> Result<String, String>>(
    drv: &Driver<F>,
    profile: &AppProfile,
    read_list: &R,
) -> (r: Result<(), KsuError>)
    requires
        drv.callable(),
        read_list.requires(()),
    ensures
        exists|u| #[trigger]
            resolved_uid(profile.key@, profile.uid, read_list, u) && match u {
                Err(e) => unit_view(r) == Err::<(), KsuErrorView>(e),
                Ok(resolved) => store_outcome(drv, profile@, resolved, unit_view(r)),
            },
{
    let uid = match resolve_uid(profile.key.as_str(), profile.uid, read_list) {
        Ok(u) => u,
        Err(e) => return Err(e),
    };
    let k = match to_kernel(profile, uid) {
        Ok(k) => k,
        Err(e) => return Err(e),
    };
    ksucalls::set_app_profile(drv, &k)
}

// ---------------------------------------------------------------------------
// What is set is what is read back
// ---------------------------------------------------------------------------

/// A template as it reads back: an empty one is no template.
pub open spec fn template_read_back(t: Option<Seq<char>>) -> Option<Seq<char>> {
    match t {
        Some(t) => if t.len() > 0 {
            Some(t)
        } else {
            None
        },
        None => None,
    }
}

/// The profile that reading back the layout of `p` for `uid` gives: `p` addressed to
/// `uid`, with capability and flag names in their canonical form (names by bit, then
/// numbers) and an empty template left out.
pub open spec fn read_back(p: AppProfileView, uid: i32, stored: bool) -> AppProfileView {
    AppProfileView {
        key: p.key,
        uid: Some(uid),
        stored,
        allow_su: p.allow_su,
        root: if p.allow_su {
            let root = p.root->0;
            Some(
                RootProfileView {
                    use_default: root.use_default,
                    template: template_read_back(root.template),
                    uid: root.uid,
                    gid: root.gid,
                    groups: root.groups,
                    capabilities: names_of_bits(
                        bits_of_names(root.capabilities, capability_names(), NameKind::Capability, 0)->Ok_0,
                        capability_names(),
                    ),
                    selinux_domain: root.selinux_domain,
                    namespace: root.namespace,
                    flags: names_of_bits(
                        bits_of_names(root.flags, flag_names(), NameKind::Flag, 0)->Ok_0,
                        flag_names(),
                    ),
                },
            )
        } else {
            None
        },
        non_root: if p.allow_su {
            None
        } else {
            p.non_root
        },
    }
}

proof fn lemma_zero_field_reads_empty(n: nat)
    ensures
        c_str_text(zero_bytes(n)).len() == 0,
{
    let z = zero_bytes(n);
    if n > 0 {
        assert(z[0] == 0u8);
    }
    assert(ksucalls::c_str_bytes(z) =~= seq![]);
}

// ---------------------------------------------------------------------------
// Where each field goes
// ---------------------------------------------------------------------------

/// Laying a profile out for the kernel puts each field where the kernel reads it: the
/// key and the app's uid in the header, and, for a root profile, its uid in the root
/// profile's uid, its gid in its gid, its groups first in the group array with their
/// count, its namespace by the kernel's number (0 inherited, 1 global, 2 individual),
/// and the default switch as given; a non-root profile's two switches go to the
/// non-root half.
pub proof fn lemma_layout_fields(p: AppProfileView, uid: i32)
    requires
        to_kernel_view(p, uid) is Ok,
    ensures
        ({
            let k = to_kernel_view(p, uid)->Ok_0;
            &&& k.curr_uid == uid
            &&& k.allow_su == p.allow_su
            &&& c_str_text(k.key) == p.key
            &&& p.allow_su ==> {
                let root = p.root->0;
                let rp = k.rp_config;
                &&& p.root is Some
                &&& rp.profile.uid == root.uid
                &&& rp.profile.gid == root.gid
                &&& rp.use_default == root.use_default
                &&& rp.profile.groups_count == root.groups.len()
                &&& rp.profile.groups.take(root.groups.len() as int) == root.groups
                &&& (root.namespace == Namespace::Inherited ==> rp.profile.namespaces == 0)
                &&& (root.namespace == Namespace::Global ==> rp.profile.namespaces == 1)
                &&& (root.namespace == Namespace::Individual ==> rp.profile.namespaces == 2)
                &&& c_str_text(rp.profile.selinux_domain) == root.selinux_domain
            }
            &&& !p.allow_su ==> {
                &&& p.non_root is Some
                &&& k.nrp_config.use_default == p.non_root->0.use_default
                &&& k.nrp_config.umount_modules == p.non_root->0.umount_modules
            }
        }),
{
    let k = to_kernel_view(p, uid)->Ok_0;
    ksucalls::lemma_c_str_round_trip(zero_bytes(uapi::KSU_MAX_PACKAGE_NAME as nat), p.key);
    if p.allow_su {
        let root = p.root->0;
        let z = uapi::zero_root_config();
        ksucalls::lemma_c_str_round_trip(z.profile.selinux_domain, root.selinux_domain);
        assert(k.rp_config.profile.groups.take(root.groups.len() as int) =~= root.groups);
    }
}

/// Reading a kernel profile takes each field from where the kernel keeps it: the key
/// and the app's uid from the header; for a root profile, the uid from the root
/// profile's uid, the gid from its gid, the default switch as kept, and the groups the
/// count names; for a non-root profile, the two switches of the non-root half. Only
/// the half that `allow_su` selects comes back.
pub proof fn lemma_read_fields(k: KernelAppProfileView, stored: bool)
    requires
        from_kernel_view(k, stored) is Ok,
    ensures
        ({
            let v = from_kernel_view(k, stored)->Ok_0;
            &&& v.key == c_str_text(k.key)
            &&& v.uid == Some(k.curr_uid)
            &&& v.stored == stored
            &&& v.allow_su == k.allow_su
            &&& k.allow_su ==> {
                &&& v.root is Some
                &&& v.non_root is None
                &&& v.root->0.uid == k.rp_config.profile.uid
                &&& v.root->0.gid == k.rp_config.profile.gid
                &&& v.root->0.use_default == k.rp_config.use_default
                &&& v.root->0.selinux_domain == c_str_text(k.rp_config.profile.selinux_domain)
                &&& (k.rp_config.profile.groups_count <= k.rp_config.profile.groups.len()
                    ==> v.root->0.groups == k.rp_config.profile.groups.take(
                    k.rp_config.profile.groups_count as int,
                ))
                &&& (k.rp_config.profile.namespaces == 0 ==> v.root->0.namespace == Namespace::Inherited)
                &&& (k.rp_config.profile.namespaces == 1 ==> v.root->0.namespace == Namespace::Global)
                &&& (k.rp_config.profile.namespaces == 2 ==> v.root->0.namespace == Namespace::Individual)
            }
            &&& !k.allow_su ==> {
                &&& v.root is None
                &&& v.non_root == Some(
                    NonRootProfile {
                        use_default: k.nrp_config.use_default,
                        umount_modules: k.nrp_config.umount_modules,
                    },
                )
            }
        }),
{
}

// ---------------------------------------------------------------------------
// Package list lines
// ---------------------------------------------------------------------------

/// A uid is read from the package list only off the first line whose first field is
/// exactly the package: its second field, as a number. A line whose first field only
/// starts with the package is not about it, and when no line names it the package is
/// reported missing.
pub proof fn lemma_package_uid_lines(lines: Seq<Seq<char>>, package: Seq<char>)
    ensures
        package_uid_in(lines, package) matches Ok(u) ==> exists|k: int|
            0 <= k < lines.len() && text::words(#[trigger] lines[k]).len() >= 2
                && text::words(lines[k])[0] == package && text::parse_i32_spec(
                text::words(lines[k])[1],
            ) == Some(u) && forall|m: int|
                0 <= m < k ==> !(text::words(#[trigger] lines[m]).len() > 0 && text::words(
                    lines[m],
                )[0] == package),
        (forall|m: int|
            0 <= m < lines.len() ==> !(text::words(#[trigger] lines[m]).len() > 0 && text::words(
                lines[m],
            )[0] == package)) ==> package_uid_in(lines, package) == Err::<i32, KsuErrorView>(
            KsuErrorView::NoSuchPackage(package),
        ),
    decreases lines.len(),
{
    if lines.len() > 0 {
        let rest = lines.drop_first();
        lemma_package_uid_lines(rest, package);
        let f = text::words(lines[0]);
        if !(f.len() > 0 && f[0] == package) {
            if package_uid_in(lines, package) is Ok {
                let u = package_uid_in(lines, package)->Ok_0;
                let k = choose|k: int|
                    0 <= k < rest.len() && text::words(#[trigger] rest[k]).len() >= 2
                        && text::words(rest[k])[0] == package && text::parse_i32_spec(
                        text::words(rest[k])[1],
                    ) == Some(u) && forall|m: int|
                        0 <= m < k ==> !(text::words(#[trigger] rest[m]).len() > 0 && text::words(
                            rest[m],
                        )[0] == package);
                assert(lines[k + 1] == rest[k]);
                assert forall|m: int| 0 <= m < k + 1 implies !(text::words(#[trigger] lines[m]).len()
                    > 0 && text::words(lines[m])[0] == package) by {
                    if m > 0 {
                        assert(lines[m] == rest[m - 1]);
                    }
                }
            }
            if forall|m: int|
                0 <= m < lines.len() ==> !(text::words(#[trigger] lines[m]).len() > 0 && text::words(
                    lines[m],
                )[0] == package) {
                assert forall|m: int| 0 <= m < rest.len() implies !(text::words(#[trigger] rest[m]).len()
                    > 0 && text::words(rest[m])[0] == package) by {
                    assert(rest[m] == lines[m + 1]);
                }
            }
        } else {
            if package_uid_in(lines, package) is Ok {
                assert(text::words(lines[0]).len() >= 2);
            }
            assert(text::words(lines[0]).len() > 0 && text::words(lines[0])[0] == package);
        }
    }
}

/// The same, over the lines of a package list.
pub proof fn lemma_package_uid(list: Seq<char>, package: Seq<char>)
    ensures
        package_uid(list, package) matches Ok(u) ==> exists|k: int|
            0 <= k < text::split_lines(list).len() && text::words(
                #[trigger] text::split_lines(list)[k],
            ).len() >= 2 && text::words(text::split_lines(list)[k])[0] == package
                && text::parse_i32_spec(text::words(text::split_lines(list)[k])[1]) == Some(u)
                && forall|m: int|
                0 <= m < k ==> !(text::words(#[trigger] text::split_lines(list)[m]).len() > 0
                    && text::words(text::split_lines(list)[m])[0] == package),
{
    lemma_package_uid_lines(text::split_lines(list), package);
}

/// Whatever profile can be set is read back as set: laying it out for the kernel and
/// reading the layout back gives the profile addressed to its uid, with its capability
/// and flag names in canonical form and an empty template left out. Only the section
/// that `allow_su` selects comes back.
pub proof fn lemma_profile_round_trip(p: AppProfileView, uid: i32, stored: bool)
    requires
        to_kernel_view(p, uid) is Ok,
    ensures
        from_kernel_view(to_kernel_view(p, uid)->Ok_0, stored) == Ok::<AppProfileView, KsuErrorView>(
            read_back(p, uid, stored),
        ),
{
    let k = to_kernel_view(p, uid)->Ok_0;
    let zk = zero_bytes(uapi::KSU_MAX_PACKAGE_NAME as nat);
    ksucalls::lemma_c_str_round_trip(zk, p.key);
    assert(c_str_text(k.key) == p.key);
    if p.allow_su {
        let root = p.root->0;
        let z = uapi::zero_root_config();
        let rp = k.rp_config;
        lemma_namespace_round_trip(root.namespace, 0);
        match root.template {
            Some(t) => {
                ksucalls::lemma_c_str_round_trip(z.template_name, t);
            },
            None => {
                lemma_zero_field_reads_empty(uapi::KSU_MAX_PACKAGE_NAME as nat);
                assert(z.template_name == zero_bytes(uapi::KSU_MAX_PACKAGE_NAME as nat));
            },
        }
        assert(template_of(rp.template_name) == template_read_back(root.template));
        ksucalls::lemma_c_str_round_trip(z.profile.selinux_domain, root.selinux_domain);
        assert(groups_taken(rp.profile) =~= root.groups);
        assert(from_kernel_view(k, stored) =~= Ok::<AppProfileView, KsuErrorView>(
            read_back(p, uid, stored),
        ));
    } else {
        assert(from_kernel_view(k, stored) =~= Ok::<AppProfileView, KsuErrorView>(
            read_back(p, uid, stored),
        ));
    }
}

// ---------------------------------------------------------------------------
// Names and bits round trip
// ---------------------------------------------------------------------------

/// A name that a value equal to it is looked up as, and that is no number.
pub open spec fn reads_as_itself(n: Seq<char>) -> bool {
    wanted_name(n) == n && parse_u32_spec(n) is None
}

/// A table of bit names whose masks round trip: at most 64 names, each read as itself,
/// no two alike.
pub open spec fn round_trip_table(names: Seq<Seq<char>>) -> bool {
    &&& names.len() <= 64
    &&& forall|i: int| 0 <= i < names.len() ==> reads_as_itself(#[trigger] names[i])
    &&& forall|i: int, j: int| 0 <= i < j < names.len() ==> names[i] != names[j]
}

/// A plain name is looked up as itself, and is no number.
proof fn lemma_plain_name_reads_as_itself(n: Seq<char>)
    requires
        plain_name(n),
    ensures
        wanted_name(n) == n,
        parse_u32_spec(n) is None,
{
    assert(name_char(n[0]));
    assert(name_char(n[n.len() - 1]));
    assert(trim(n) == n);
    assert(strip_cap_prefix(n) == n);
    assert(text::all_ascii(n)) by {
        assert forall|k: int| 0 <= k < n.len() implies text::is_ascii_char(#[trigger] n[k]) by {
            assert(name_char(n[k]));
        }
    }
    assert(n.map_values(|c: char| text::ascii_upper(c)) =~= n) by {
        assert forall|k: int| 0 <= k < n.len() implies text::ascii_upper(n[k]) == n[k] by {
            assert(name_char(n[k]));
        }
    }
    assert(!text::is_digit(n[0]));
}

/// A table of plain, distinct names round trips.
proof fn lemma_plain_table_round_trips(names: Seq<Seq<char>>)
    requires
        name_table(names),
    ensures
        round_trip_table(names),
{
    assert forall|i: int| 0 <= i < names.len() implies reads_as_itself(#[trigger] names[i]) by {
        lemma_plain_name_reads_as_itself(names[i]);
    }
}

proof fn lemma_decimal(n: nat)
    ensures
        decimal(n).len() > 0,
        text::all_digits(decimal(n)),
        text::digits_value(decimal(n)) == n,
    decreases n,
{
    if n < 10 {
        assert(text::digits_value(decimal(n)) == text::digits_value(decimal(n).drop_last()) * 10
            + text::digit_value(decimal(n).last()));
        assert(decimal(n).drop_last() =~= seq![]);
    } else {
        lemma_decimal(n / 10);
        let d = decimal(n);
        assert(d.drop_last() =~= decimal(n / 10));
        assert forall|k: int| 0 <= k < d.len() implies text::is_digit(#[trigger] d[k]) by {
            if k < d.len() - 1 {
                assert(d[k] == decimal(n / 10)[k]);
            }
        }
    }
}

/// A decimal number is looked up as itself, and parses as that number.
proof fn lemma_decimal_reads_as_number(b: nat)
    requires
        b < 64,
    ensures
        wanted_name(decimal(b)) == decimal(b),
        parse_u32_spec(decimal(b)) == Some(b as u32),
{
    lemma_decimal(b);
    let d = decimal(b);
    assert(text::is_digit(d[0]));
    assert(text::is_digit(d[d.len() - 1]));
    assert(trim(d) == d);
    assert(d.len() >= 4 ==> d.take(4)[0] == d[0]);
    assert(strip_cap_prefix(d) == d);
    assert(text::all_ascii(d)) by {
        assert forall|k: int| 0 <= k < d.len() implies text::is_ascii_char(#[trigger] d[k]) by {
            assert(text::is_digit(d[k]));
        }
    }
    assert(d.map_values(|c: char| text::ascii_upper(c)) =~= d) by {
        assert forall|k: int| 0 <= k < d.len() implies text::ascii_upper(d[k]) == d[k] by {
            assert(text::is_digit(d[k]));
        }
    }
}

proof fn lemma_first_index_of(names: Seq<Seq<char>>, i: int, j: int)
    requires
        round_trip_table(names),
        0 <= j <= i < names.len(),
    ensures
        first_index(names, names[i], j) == Some(i),
    decreases i - j,
{
    if j < i {
        assert(names[j] != names[i]);
        lemma_first_index_of(names, i, j + 1);
    }
}

/// The bits below `k`.
pub open spec fn low_mask(k: int) -> u64 {
    if k >= 64 {
        0xFFFF_FFFF_FFFF_FFFFu64
    } else {
        (((1u64 << (k as u64)) - 1) as u64)
    }
}

proof fn lemma_mask_bits(bits: u64, k: u64)
    by (bit_vector)
    requires
        k < 64,
    ensures
        (bits & (1u64 << k)) != 0 ==> ((bits & (((1u64 << k) - 1) as u64)) | (1u64 << k)) == (bits
            & ((((1u64 << k) - 1) as u64) | (1u64 << k))),
        (bits & (1u64 << k)) == 0 ==> (bits & (((1u64 << k) - 1) as u64)) == (bits & ((((1u64 << k)
            - 1) as u64) | (1u64 << k))),
        k < 63 ==> ((((1u64 << k) - 1) as u64) | (1u64 << k)) == (((1u64 << ((k + 1) as u64)) - 1) as u64),
        k == 63 ==> ((((1u64 << k) - 1) as u64) | (1u64 << k)) == 0xFFFF_FFFF_FFFF_FFFFu64,
{
}

proof fn lemma_mask_ends(bits: u64)
    by (bit_vector)
    ensures
        (bits & (((1u64 << 0u64) - 1) as u64)) == 0,
        (bits & 0xFFFF_FFFF_FFFF_FFFFu64) == bits,
{
}

/// Taking bit `k` into the bits below it gives the bits below `k + 1`.
proof fn lemma_mask_step(bits: u64, k: int)
    requires
        0 <= k < 64,
    ensures
        bit_set(bits, k) ==> ((bits & low_mask(k)) | (1u64 << (k as u64))) == (bits & low_mask(k + 1)),
        !bit_set(bits, k) ==> (bits & low_mask(k)) == (bits & low_mask(k + 1)),
{
    lemma_mask_bits(bits, k as u64);
}

proof fn lemma_bits_of_names_concat(
    a: Seq<Seq<char>>,
    b: Seq<Seq<char>>,
    names: Seq<Seq<char>>,
    kind: NameKind,
    acc: u64,
)
    ensures
        bits_of_names(a + b, names, kind, acc) == match bits_of_names(a, names, kind, acc) {
            Ok(x) => bits_of_names(b, names, kind, x),
            Err(e) => Err(e),
        },
    decreases a.len(),
{
    if a.len() == 0 {
        assert(a + b =~= b);
    } else {
        assert((a + b).drop_first() =~= a.drop_first() + b);
        assert((a + b)[0] == a[0]);
        match name_bit(a[0], names) {
            None => {},
            Some(bit) => {
                if bit < 64 {
                    lemma_bits_of_names_concat(
                        a.drop_first(),
                        b,
                        names,
                        kind,
                        acc | (1u64 << (bit as u64)),
                    );
                }
            },
        }
    }
}

proof fn lemma_known_names(bits: u64, names: Seq<Seq<char>>, kind: NameKind, i: int)
    requires
        round_trip_table(names),
        0 <= i <= names.len(),
    ensures
        bits_of_names(known_names(bits, names, i), names, kind, bits & low_mask(i)) == Ok::<
            u64,
            KsuErrorView,
        >(bits & low_mask(names.len() as int)),
    decreases names.len() - i,
{
    if i < names.len() {
        lemma_known_names(bits, names, kind, i + 1);
        lemma_mask_step(bits, i);
        let head = if bit_set(bits, i) {
            seq![names[i]]
        } else {
            seq![]
        };
        assert(known_names(bits, names, i) == head + known_names(bits, names, i + 1));
        lemma_bits_of_names_concat(head, known_names(bits, names, i + 1), names, kind, bits & low_mask(i));
        if bit_set(bits, i) {
            assert(reads_as_itself(names[i]));
            lemma_first_index_of(names, i, 0);
            assert(name_bit(names[i], names) == Some(i));
            assert(head.drop_first() =~= seq![]);
            let x = (bits & low_mask(i)) | (1u64 << (i as u64));
            assert(bits_of_names(head.drop_first(), names, kind, x) == Ok::<u64, KsuErrorView>(x));
            assert(bits_of_names(head, names, kind, bits & low_mask(i)) == Ok::<u64, KsuErrorView>(x));
        } else {
            assert(bits_of_names(head, names, kind, bits & low_mask(i)) == Ok::<u64, KsuErrorView>(
                bits & low_mask(i),
            ));
        }
    } else {
        assert(known_names(bits, names, i) =~= seq![]);
    }
}

proof fn lemma_numbered_bits(bits: u64, names: Seq<Seq<char>>, kind: NameKind, i: int)
    requires
        0 <= i <= 64,
    ensures
        bits_of_names(numbered_bits(bits, i), names, kind, bits & low_mask(i)) == Ok::<u64, KsuErrorView>(
            bits,
        ),
    decreases 64 - i,
{
    if i < 64 {
        lemma_numbered_bits(bits, names, kind, i + 1);
        lemma_mask_step(bits, i);
        let head = if bit_set(bits, i) {
            seq![decimal(i as nat)]
        } else {
            seq![]
        };
        assert(numbered_bits(bits, i) == head + numbered_bits(bits, i + 1));
        lemma_bits_of_names_concat(head, numbered_bits(bits, i + 1), names, kind, bits & low_mask(i));
        if bit_set(bits, i) {
            lemma_decimal_reads_as_number(i as nat);
            assert(name_bit(decimal(i as nat), names) == Some(i));
            assert(head.drop_first() =~= seq![]);
            let x = (bits & low_mask(i)) | (1u64 << (i as u64));
            assert(bits_of_names(head.drop_first(), names, kind, x) == Ok::<u64, KsuErrorView>(x));
            assert(bits_of_names(head, names, kind, bits & low_mask(i)) == Ok::<u64, KsuErrorView>(x));
        } else {
            assert(bits_of_names(head, names, kind, bits & low_mask(i)) == Ok::<u64, KsuErrorView>(
                bits & low_mask(i),
            ));
        }
    } else {
        lemma_mask_ends(bits);
        assert(numbered_bits(bits, i) =~= seq![]);
    }
}

/// Reading back the names of a mask gives the mask, for any table of at most 64
/// distinct names that are each looked up as themselves and are no number: no bit
/// vanishes, whether it has a name or only a number.
pub proof fn lemma_names_round_trip(bits: u64, names: Seq<Seq<char>>, kind: NameKind)
    requires
        round_trip_table(names),
    ensures
        bits_of_names(names_of_bits(bits, names), names, kind, 0) == Ok::<u64, KsuErrorView>(bits),
{
    lemma_mask_ends(bits);
    assert(low_mask(0) == (((1u64 << 0u64) - 1) as u64));
    lemma_known_names(bits, names, kind, 0);
    lemma_numbered_bits(bits, names, kind, names.len() as int);
    lemma_bits_of_names_concat(
        known_names(bits, names, 0),
        numbered_bits(bits, names.len() as int),
        names,
        kind,
        0,
    );
}

/// Capability names read back as the mask they were written from.
pub proof fn lemma_capabilities_round_trip(bits: u64)
    ensures
        bits_of_names(names_of_bits(bits, capability_names()), capability_names(), NameKind::Capability, 0)
            == Ok::<u64, KsuErrorView>(bits),
{
    lemma_capability_table();
    lemma_plain_table_round_trips(capability_names());
    lemma_names_round_trip(bits, capability_names(), NameKind::Capability);
}

/// Flag names read back as the mask they were written from.
pub proof fn lemma_flags_round_trip(bits: u64)
    ensures
        bits_of_names(names_of_bits(bits, flag_names()), flag_names(), NameKind::Flag, 0) == Ok::<
            u64,
            KsuErrorView,
        >(bits),
{
    lemma_flag_table();
    lemma_plain_table_round_trips(flag_names());
    lemma_names_round_trip(bits, flag_names(), NameKind::Flag);
}

/// Setting back what was read back changes nothing: the profile read back from the
/// layout of `p` lays out exactly as `p` did.
pub proof fn lemma_set_after_get(p: AppProfileView, uid: i32, stored: bool)
    requires
        to_kernel_view(p, uid) is Ok,
    ensures
        to_kernel_view(read_back(p, uid, stored), uid) == to_kernel_view(p, uid),
{
    let q = read_back(p, uid, stored);
    if p.allow_su {
        let root = p.root->0;
        let rq = q.root->0;
        let caps = bits_of_names(root.capabilities, capability_names(), NameKind::Capability, 0)->Ok_0;
        let fl = bits_of_names(root.flags, flag_names(), NameKind::Flag, 0)->Ok_0;
        lemma_capabilities_round_trip(caps);
        lemma_flags_round_trip(fl);
        let z = uapi::zero_root_config();
        match root.template {
            Some(t) => {
                if t.len() == 0 {
                    assert(encode_utf8(t) =~= seq![]);
                    assert(c_str_written(z.template_name, t) =~= z.template_name);
                }
            },
            None => {},
        }
        assert(root_config_for(rq) == root_config_for(root));
        assert(to_kernel_view(q, uid) =~= to_kernel_view(p, uid));
    } else {
        assert(to_kernel_view(q, uid) =~= to_kernel_view(p, uid));
    }
}

} // verus!
