//! The errors the library reports.
use vstd::prelude::*;

verus! {

/// Why a driver command did not run or was refused by the kernel.
#[derive(Debug, Clone, Copy, PartialEq, Eq, Structural)]
pub enum IoctlError {
    /// No KernelSU driver descriptor is available.
    NoDriver,
    /// The command returned an error; the errno the kernel reported.
    Os(i32),
}

/// Which fixed kernel string field a string was meant for.
#[derive(Debug, Clone, Copy, PartialEq, Eq, Structural)]
pub enum CField {
    PackageName,
    Template,
    SelinuxDomain,
}

/// Why a string does not fit a fixed, NUL-terminated kernel field.
#[derive(Debug, Clone, Copy, PartialEq, Eq, Structural)]
pub enum CStrError {
    /// `len` bytes given, and the field keeps at most `room`.
    TooLong { len: usize, room: usize },
    /// The string holds a NUL byte.
    Nul,
}

/// The kind of bit name being read.
#[derive(Debug, Clone, Copy, PartialEq, Eq, Structural)]
pub enum NameKind {
    Capability,
    Flag,
}

/// Everything that can go wrong in the library.
#[derive(Debug, Clone, PartialEq, Eq)]
pub enum KsuError {
    /// A driver command failed.
    Ioctl(IoctlError),
    /// The kernel speaks another UAPI version than this build.
    UapiMismatch { kernel: u32, ksud: u32 },
    /// A command that answers 0 answered something else.
    UnexpectedResult(i32),
    /// A path handed to the kernel holds a NUL byte.
    InteriorNul,
    /// The kernel refused an app profile command (it is gated on the manager).
    ProfileRefused,
    /// The kernel was built without app profile support.
    ProfileUnsupported,
    /// An app profile command failed otherwise.
    ProfileCallFailed(IoctlError),
    /// A string does not fit a kernel field.
    CString { field: CField, error: CStrError },
    /// The kernel reported a namespace mode this build does not know.
    UnknownNamespace(i32),
    /// Both profile sections were given; only the one `allow_su` selects may be.
    BothSections,
    /// `allow_su` is set and the root section is missing.
    MissingRoot,
    /// `allow_su` is clear and the non-root section is missing.
    MissingNonRoot,
    /// More supplementary groups than the kernel keeps.
    TooManyGroups { given: usize, max: usize },
    /// No capability or flag has this name.
    UnknownName { kind: NameKind, value: String },
    /// A capability or flag number that does not fit the 64-bit mask.
    OutOfRange { kind: NameKind, value: String },
    /// The package list could not be read; the reason.
    PackageListUnreadable(String),
    /// A package list line names the package and gives no uid.
    PackageListNoUid,
    /// A package list line gives something that is not a uid.
    PackageListBadUid(String),
    /// No installed package has this name.
    NoSuchPackage(String),
}

pub enum KsuErrorView {
    Ioctl(IoctlError),
    UapiMismatch { kernel: u32, ksud: u32 },
    UnexpectedResult(i32),
    InteriorNul,
    ProfileRefused,
    ProfileUnsupported,
    ProfileCallFailed(IoctlError),
    CString { field: CField, error: CStrError },
    UnknownNamespace(i32),
    BothSections,
    MissingRoot,
    MissingNonRoot,
    TooManyGroups { given: usize, max: usize },
    UnknownName { kind: NameKind, value: Seq<char> },
    OutOfRange { kind: NameKind, value: Seq<char> },
    PackageListUnreadable(Seq<char>),
    PackageListNoUid,
    PackageListBadUid(Seq<char>),
    NoSuchPackage(Seq<char>),
}

impl View for KsuError {
    type V = KsuErrorView;

    open spec fn view(&self) -> KsuErrorView {
        match self {
            KsuError::Ioctl(e) => KsuErrorView::Ioctl(*e),
            KsuError::UapiMismatch { kernel, ksud } => KsuErrorView::UapiMismatch {
                kernel: *kernel,
                ksud: *ksud,
            },
            KsuError::UnexpectedResult(r) => KsuErrorView::UnexpectedResult(*r),
            KsuError::InteriorNul => KsuErrorView::InteriorNul,
            KsuError::ProfileRefused => KsuErrorView::ProfileRefused,
            KsuError::ProfileUnsupported => KsuErrorView::ProfileUnsupported,
            KsuError::ProfileCallFailed(e) => KsuErrorView::ProfileCallFailed(*e),
            KsuError::CString { field, error } => KsuErrorView::CString {
                field: *field,
                error: *error,
            },
            KsuError::UnknownNamespace(n) => KsuErrorView::UnknownNamespace(*n),
            KsuError::BothSections => KsuErrorView::BothSections,
            KsuError::MissingRoot => KsuErrorView::MissingRoot,
            KsuError::MissingNonRoot => KsuErrorView::MissingNonRoot,
            KsuError::TooManyGroups { given, max } => KsuErrorView::TooManyGroups {
                given: *given,
                max: *max,
            },
            KsuError::UnknownName { kind, value } => KsuErrorView::UnknownName {
                kind: *kind,
                value: value@,
            },
            KsuError::OutOfRange { kind, value } => KsuErrorView::OutOfRange {
                kind: *kind,
                value: value@,
            },
            KsuError::PackageListUnreadable(m) => KsuErrorView::PackageListUnreadable(m@),
            KsuError::PackageListNoUid => KsuErrorView::PackageListNoUid,
            KsuError::PackageListBadUid(u) => KsuErrorView::PackageListBadUid(u@),
            KsuError::NoSuchPackage(p) => KsuErrorView::NoSuchPackage(p@),
        }
    }
}

} // verus!
