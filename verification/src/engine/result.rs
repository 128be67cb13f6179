use vstd::prelude::*;

verus! {

/// The broad family an error or skip reason belongs to.
#[derive(Debug, Clone, Copy, PartialEq, Eq, Structural)]
pub enum ErrorCategory {
    Validation,
    Compatibility,
    Safety,
    Runtime,
}

impl ErrorCategory {
    /// The stable lower-case label of a category.
    pub open spec fn label(self) -> Seq<char> {
        match self {
            ErrorCategory::Validation => "validation"@,
            ErrorCategory::Compatibility => "compatibility"@,
            ErrorCategory::Safety => "safety"@,
            ErrorCategory::Runtime => "runtime"@,
        }
    }

    pub fn as_str(self) -> (s: &'static str)
        ensures
            s@ == self.label(),
    {
        match self {
            ErrorCategory::Validation => "validation",
            ErrorCategory::Compatibility => "compatibility",
            ErrorCategory::Safety => "safety",
            ErrorCategory::Runtime => "runtime",
        }
    }
}

/// Every machine-readable reason code the tool reports.
#[derive(Debug, Clone, Copy, PartialEq, Eq, Structural)]
pub enum ReasonCode {
    ThemeSchemaInvalid,
    SkipReloadUnsupported,
    SkipTargetOptional,
    RollbackApplied,
    TransactionIoFailed,
    TransactionJournalInvalid,
    TemplateKeyMissing,
    MarkerNotFoundAppendDisabled,
    AdapterCapabilityMissing,
    PlannerDryRun,
    PlannerNoActions,
    PlannerInvalidTarget,
    ReportSerializationFailed,
    PlannerReady,
    WallpaperPathMissing,
    WallpaperUnsupportedFormat,
    WallpaperStateWriteFailed,
    WallpaperCommandUnsafe,
    WallpaperDecodeFailed,
    PaletteCacheIoFailed,
    CompositorSocketUnavailable,
    PathOutsideAllowedRoot,
    PathNotAbsolute,
    HomeDirectoryMissing,
    EvidenceWriteFailed,
    DoctorUsageInvalid,
    DoctorOutputFailed,
    ThemeCycleNoThemes,
    ThemeCycleStateIoFailed,
    ShortcutInstallFailed,
    ShortcutUnsupportedCompositor,
    SkipRestartPolicy,
    TransactionLockBusy,
}

impl ReasonCode {
    /// The stable upper-snake-case label of a reason code.
    pub open spec fn label(self) -> Seq<char> {
        match self {
            ReasonCode::ThemeSchemaInvalid => "THEME_SCHEMA_INVALID"@,
            ReasonCode::SkipReloadUnsupported => "SKIP_RELOAD_UNSUPPORTED"@,
            ReasonCode::SkipTargetOptional => "SKIP_TARGET_OPTIONAL"@,
            ReasonCode::RollbackApplied => "ROLLBACK_APPLIED"@,
            ReasonCode::TransactionIoFailed => "TRANSACTION_IO_FAILED"@,
            ReasonCode::TransactionJournalInvalid => "TRANSACTION_JOURNAL_INVALID"@,
            ReasonCode::TemplateKeyMissing => "TEMPLATE_KEY_MISSING"@,
            ReasonCode::MarkerNotFoundAppendDisabled => "MARKER_NOT_FOUND_APPEND_DISABLED"@,
            ReasonCode::AdapterCapabilityMissing => "ADAPTER_CAPABILITY_MISSING"@,
            ReasonCode::PlannerDryRun => "PLANNER_DRY_RUN"@,
            ReasonCode::PlannerNoActions => "PLANNER_NO_ACTIONS"@,
            ReasonCode::PlannerInvalidTarget => "PLANNER_INVALID_TARGET"@,
            ReasonCode::ReportSerializationFailed => "REPORT_SERIALIZATION_FAILED"@,
            ReasonCode::PlannerReady => "PLANNER_READY"@,
            ReasonCode::WallpaperPathMissing => "WALLPAPER_PATH_MISSING"@,
            ReasonCode::WallpaperUnsupportedFormat => "WALLPAPER_UNSUPPORTED_FORMAT"@,
            ReasonCode::WallpaperStateWriteFailed => "WALLPAPER_STATE_WRITE_FAILED"@,
            ReasonCode::WallpaperCommandUnsafe => "WALLPAPER_COMMAND_UNSAFE"@,
            ReasonCode::WallpaperDecodeFailed => "WALLPAPER_DECODE_FAILED"@,
            ReasonCode::PaletteCacheIoFailed => "PALETTE_CACHE_IO_FAILED"@,
            ReasonCode::CompositorSocketUnavailable => "COMPOSITOR_SOCKET_UNAVAILABLE"@,
            ReasonCode::PathOutsideAllowedRoot => "PATH_OUTSIDE_ALLOWED_ROOT"@,
            ReasonCode::PathNotAbsolute => "PATH_NOT_ABSOLUTE"@,
            ReasonCode::HomeDirectoryMissing => "HOME_DIRECTORY_MISSING"@,
            ReasonCode::EvidenceWriteFailed => "EVIDENCE_WRITE_FAILED"@,
            ReasonCode::DoctorUsageInvalid => "DOCTOR_USAGE_INVALID"@,
            ReasonCode::DoctorOutputFailed => "DOCTOR_OUTPUT_FAILED"@,
            ReasonCode::ThemeCycleNoThemes => "THEME_CYCLE_NO_THEMES"@,
            ReasonCode::ThemeCycleStateIoFailed => "THEME_CYCLE_STATE_IO_FAILED"@,
            ReasonCode::ShortcutInstallFailed => "SHORTCUT_INSTALL_FAILED"@,
            ReasonCode::ShortcutUnsupportedCompositor => "SHORTCUT_UNSUPPORTED_COMPOSITOR"@,
            ReasonCode::SkipRestartPolicy => "SKIP_RESTART_POLICY"@,
            ReasonCode::TransactionLockBusy => "TRANSACTION_LOCK_BUSY"@,
        }
    }

    /// The category each reason code is filed under.
    pub open spec fn category_of(self) -> ErrorCategory {
        match self {
            ReasonCode::ThemeSchemaInvalid
            | ReasonCode::TemplateKeyMissing
            | ReasonCode::MarkerNotFoundAppendDisabled
            | ReasonCode::AdapterCapabilityMissing
            | ReasonCode::WallpaperPathMissing
            | ReasonCode::WallpaperUnsupportedFormat
            | ReasonCode::ThemeCycleNoThemes => ErrorCategory::Validation,
            ReasonCode::SkipReloadUnsupported
            | ReasonCode::SkipTargetOptional
            | ReasonCode::SkipRestartPolicy => ErrorCategory::Compatibility,
            ReasonCode::RollbackApplied
            | ReasonCode::PathOutsideAllowedRoot
            | ReasonCode::PathNotAbsolute
            | ReasonCode::HomeDirectoryMissing => ErrorCategory::Safety,
            _ => ErrorCategory::Runtime,
        }
    }

    pub fn as_str(self) -> (s: &'static str)
        ensures
            s@ == self.label(),
    {
        match self {
            ReasonCode::ThemeSchemaInvalid => "THEME_SCHEMA_INVALID",
            ReasonCode::SkipReloadUnsupported => "SKIP_RELOAD_UNSUPPORTED",
            ReasonCode::SkipTargetOptional => "SKIP_TARGET_OPTIONAL",
            ReasonCode::RollbackApplied => "ROLLBACK_APPLIED",
            ReasonCode::TransactionIoFailed => "TRANSACTION_IO_FAILED",
            ReasonCode::TransactionJournalInvalid => "TRANSACTION_JOURNAL_INVALID",
            ReasonCode::TemplateKeyMissing => "TEMPLATE_KEY_MISSING",
            ReasonCode::MarkerNotFoundAppendDisabled => "MARKER_NOT_FOUND_APPEND_DISABLED",
            ReasonCode::AdapterCapabilityMissing => "ADAPTER_CAPABILITY_MISSING",
            ReasonCode::PlannerDryRun => "PLANNER_DRY_RUN",
            ReasonCode::PlannerNoActions => "PLANNER_NO_ACTIONS",
            ReasonCode::PlannerInvalidTarget => "PLANNER_INVALID_TARGET",
            ReasonCode::ReportSerializationFailed => "REPORT_SERIALIZATION_FAILED",
            ReasonCode::PlannerReady => "PLANNER_READY",
            ReasonCode::WallpaperPathMissing => "WALLPAPER_PATH_MISSING",
            ReasonCode::WallpaperUnsupportedFormat => "WALLPAPER_UNSUPPORTED_FORMAT",
            ReasonCode::WallpaperStateWriteFailed => "WALLPAPER_STATE_WRITE_FAILED",
            ReasonCode::WallpaperCommandUnsafe => "WALLPAPER_COMMAND_UNSAFE",
            ReasonCode::WallpaperDecodeFailed => "WALLPAPER_DECODE_FAILED",
            ReasonCode::PaletteCacheIoFailed => "PALETTE_CACHE_IO_FAILED",
            ReasonCode::CompositorSocketUnavailable => "COMPOSITOR_SOCKET_UNAVAILABLE",
            ReasonCode::PathOutsideAllowedRoot => "PATH_OUTSIDE_ALLOWED_ROOT",
            ReasonCode::PathNotAbsolute => "PATH_NOT_ABSOLUTE",
            ReasonCode::HomeDirectoryMissing => "HOME_DIRECTORY_MISSING",
            ReasonCode::EvidenceWriteFailed => "EVIDENCE_WRITE_FAILED",
            ReasonCode::DoctorUsageInvalid => "DOCTOR_USAGE_INVALID",
            ReasonCode::DoctorOutputFailed => "DOCTOR_OUTPUT_FAILED",
            ReasonCode::ThemeCycleNoThemes => "THEME_CYCLE_NO_THEMES",
            ReasonCode::ThemeCycleStateIoFailed => "THEME_CYCLE_STATE_IO_FAILED",
            ReasonCode::ShortcutInstallFailed => "SHORTCUT_INSTALL_FAILED",
            ReasonCode::ShortcutUnsupportedCompositor => "SHORTCUT_UNSUPPORTED_COMPOSITOR",
            ReasonCode::SkipRestartPolicy => "SKIP_RESTART_POLICY",
            ReasonCode::TransactionLockBusy => "TRANSACTION_LOCK_BUSY",
        }
    }

    pub fn category(self) -> (c: ErrorCategory)
        ensures
            c == self.category_of(),
    {
        match self {
            ReasonCode::ThemeSchemaInvalid => ErrorCategory::Validation,
            ReasonCode::SkipReloadUnsupported => ErrorCategory::Compatibility,
            ReasonCode::SkipTargetOptional => ErrorCategory::Compatibility,
            ReasonCode::RollbackApplied => ErrorCategory::Safety,
            ReasonCode::TemplateKeyMissing => ErrorCategory::Validation,
            ReasonCode::MarkerNotFoundAppendDisabled => ErrorCategory::Validation,
            ReasonCode::AdapterCapabilityMissing => ErrorCategory::Validation,
            ReasonCode::PlannerDryRun
            | ReasonCode::PlannerNoActions
            | ReasonCode::PlannerInvalidTarget
            | ReasonCode::ReportSerializationFailed
            | ReasonCode::PlannerReady => ErrorCategory::Runtime,
            ReasonCode::WallpaperPathMissing | ReasonCode::WallpaperUnsupportedFormat => {
                ErrorCategory::Validation
            },
            ReasonCode::WallpaperStateWriteFailed
            | ReasonCode::WallpaperCommandUnsafe
            | ReasonCode::WallpaperDecodeFailed
            | ReasonCode::PaletteCacheIoFailed => ErrorCategory::Runtime,
            ReasonCode::CompositorSocketUnavailable => ErrorCategory::Runtime,
            ReasonCode::TransactionIoFailed | ReasonCode::TransactionJournalInvalid => {
                ErrorCategory::Runtime
            },
            ReasonCode::PathOutsideAllowedRoot
            | ReasonCode::PathNotAbsolute
            | ReasonCode::HomeDirectoryMissing => ErrorCategory::Safety,
            ReasonCode::EvidenceWriteFailed => ErrorCategory::Runtime,
            ReasonCode::DoctorUsageInvalid | ReasonCode::DoctorOutputFailed => {
                ErrorCategory::Runtime
            },
            ReasonCode::ThemeCycleNoThemes => ErrorCategory::Validation,
            ReasonCode::ThemeCycleStateIoFailed
            | ReasonCode::ShortcutInstallFailed
            | ReasonCode::ShortcutUnsupportedCompositor
            | ReasonCode::TransactionLockBusy => ErrorCategory::Runtime,
            ReasonCode::SkipRestartPolicy => ErrorCategory::Compatibility,
        }
    }
}

/// The one error type of the library: a reason code and a human-readable message.
#[derive(Debug, Clone, PartialEq, Eq)]
pub struct YaswitchError {
    code: ReasonCode,
    message: String,
}

impl YaswitchError {
    /// The reason code the error carries.
    pub closed spec fn code_of(&self) -> ReasonCode {
        self.code
    }

    /// The message the error carries.
    pub closed spec fn message_of(&self) -> Seq<char> {
        self.message@
    }

    pub fn new(code: ReasonCode, message: &str) -> (e: Self)
        ensures
            e.code_of() == code,
            e.message_of() == message@,
    {
        YaswitchError { code, message: message.to_owned() }
    }

    pub fn code(&self) -> (c: ReasonCode)
        ensures
            c == self.code_of(),
    {
        self.code
    }

    pub fn category(&self) -> (c: ErrorCategory)
        ensures
            c == self.code_of().category_of(),
    {
        self.code.category()
    }

    pub fn message(&self) -> (m: &str)
        ensures
            m@ == self.message_of(),
    {
        self.message.as_str()
    }

    /// The error as one line of text: its code, a colon and its message.
    pub fn display_text(&self) -> (t: String)
        ensures
            t@ == self.code_of().label() + ": "@ + self.message_of(),
    {
        let mut t = self.code.as_str().to_owned();
        t.append(": ");
        t.append(self.message.as_str());
        t
    }

    pub fn payload(&self) -> (p: ErrorPayload)
        ensures
            p.code@ == self.code_of().label(),
            p.category@ == self.code_of().category_of().label(),
            p.message@ == self.message_of(),
    {
        ErrorPayload {
            code: self.code.as_str().to_owned(),
            category: self.category().as_str().to_owned(),
            message: self.message.clone(),
        }
    }
}

/// The serialisable form of an error: code, category and message as text.
#[derive(Debug, Clone, PartialEq, Eq)]
pub struct ErrorPayload {
    pub code: String,
    pub category: String,
    pub message: String,
}

/// The reason code a label names, read from the label's length and a few of its
/// characters.
spec fn code_named(s: Seq<char>) -> ReasonCode {
    if s.len() == 13 {
        ReasonCode::PlannerReady
    } else if s.len() == 15 {
        ReasonCode::PlannerDryRun
    } else if s.len() == 16 {
        ReasonCode::RollbackApplied
    } else if s.len() == 17 {
        ReasonCode::PathNotAbsolute
    } else if s.len() == 18 {
        ReasonCode::PlannerNoActions
    } else if s.len() == 19 {
        ReasonCode::SkipRestartPolicy
    } else if s.len() == 20 {
        if s[7] == 'C' {
            ReasonCode::ThemeSchemaInvalid
        } else if s[7] == 'R' {
            ReasonCode::SkipTargetOptional
        } else if s[7] == 'E' {
            ReasonCode::TemplateKeyMissing
        } else if s[7] == 'U' {
            ReasonCode::DoctorUsageInvalid
        } else {
            ReasonCode::DoctorOutputFailed
        }
    } else if s.len() == 21 {
        if s[12] == 'I' {
            ReasonCode::TransactionIoFailed
        } else if s[12] == 'T' {
            ReasonCode::EvidenceWriteFailed
        } else if s[12] == 'N' {
            ReasonCode::ThemeCycleNoThemes
        } else {
            ReasonCode::TransactionLockBusy
        }
    } else if s.len() == 22 {
        if s[0] == 'P' {
            ReasonCode::PlannerInvalidTarget
        } else if s[0] == 'W' {
            ReasonCode::WallpaperPathMissing
        } else {
            ReasonCode::HomeDirectoryMissing
        }
    } else if s.len() == 23 {
        if s[3] == 'P' {
            ReasonCode::SkipReloadUnsupported
        } else if s[3] == 'L' {
            ReasonCode::WallpaperDecodeFailed
        } else if s[3] == 'E' {
            ReasonCode::PaletteCacheIoFailed
        } else {
            ReasonCode::ShortcutInstallFailed
        }
    } else if s.len() == 24 {
        ReasonCode::WallpaperCommandUnsafe
    } else if s.len() == 25 {
        ReasonCode::PathOutsideAllowedRoot
    } else if s.len() == 26 {
        ReasonCode::AdapterCapabilityMissing
    } else if s.len() == 27 {
        if s[1] == 'R' {
            ReasonCode::TransactionJournalInvalid
        } else if s[1] == 'E' {
            ReasonCode::ReportSerializationFailed
        } else {
            ReasonCode::ThemeCycleStateIoFailed
        }
    } else if s.len() == 28 {
        if s[10] == 'U' {
            ReasonCode::WallpaperUnsupportedFormat
        } else {
            ReasonCode::WallpaperStateWriteFailed
        }
    } else if s.len() == 29 {
        ReasonCode::CompositorSocketUnavailable
    } else if s.len() == 31 {
        ReasonCode::ShortcutUnsupportedCompositor
    } else {
        ReasonCode::MarkerNotFoundAppendDisabled
    }
}

/// Whether a character may stand in a label: a capital letter or an underscore.
pub open spec fn is_label_char(c: char) -> bool {
    ('A' <= c && c <= 'Z') || c == '_'
}

proof fn lemma_label_named(c: ReasonCode)
    ensures
        code_named(c.label()) == c,
        c.label().len() > 0,
        forall|i: int| 0 <= i < c.label().len() ==> is_label_char(#[trigger] c.label()[i]),
{
    match c {
        ReasonCode::ThemeSchemaInvalid => {
            reveal_strlit("THEME_SCHEMA_INVALID");
            assert(c.label() =~= seq!['T', 'H', 'E', 'M', 'E', '_', 'S', 'C', 'H', 'E', 'M', 'A', '_', 'I', 'N', 'V', 'A', 'L', 'I', 'D']);
        },
        ReasonCode::SkipReloadUnsupported => {
            reveal_strlit("SKIP_RELOAD_UNSUPPORTED");
            assert(c.label() =~= seq!['S', 'K', 'I', 'P', '_', 'R', 'E', 'L', 'O', 'A', 'D', '_', 'U', 'N', 'S', 'U', 'P', 'P', 'O', 'R', 'T', 'E', 'D']);
        },
        ReasonCode::SkipTargetOptional => {
            reveal_strlit("SKIP_TARGET_OPTIONAL");
            assert(c.label() =~= seq!['S', 'K', 'I', 'P', '_', 'T', 'A', 'R', 'G', 'E', 'T', '_', 'O', 'P', 'T', 'I', 'O', 'N', 'A', 'L']);
        },
        ReasonCode::RollbackApplied => {
            reveal_strlit("ROLLBACK_APPLIED");
            assert(c.label() =~= seq!['R', 'O', 'L', 'L', 'B', 'A', 'C', 'K', '_', 'A', 'P', 'P', 'L', 'I', 'E', 'D']);
        },
        ReasonCode::TransactionIoFailed => {
            reveal_strlit("TRANSACTION_IO_FAILED");
            assert(c.label() =~= seq!['T', 'R', 'A', 'N', 'S', 'A', 'C', 'T', 'I', 'O', 'N', '_', 'I', 'O', '_', 'F', 'A', 'I', 'L', 'E', 'D']);
        },
        ReasonCode::TransactionJournalInvalid => {
            reveal_strlit("TRANSACTION_JOURNAL_INVALID");
            assert(c.label() =~= seq!['T', 'R', 'A', 'N', 'S', 'A', 'C', 'T', 'I', 'O', 'N', '_', 'J', 'O', 'U', 'R', 'N', 'A', 'L', '_', 'I', 'N', 'V', 'A', 'L', 'I', 'D']);
        },
        ReasonCode::TemplateKeyMissing => {
            reveal_strlit("TEMPLATE_KEY_MISSING");
            assert(c.label() =~= seq!['T', 'E', 'M', 'P', 'L', 'A', 'T', 'E', '_', 'K', 'E', 'Y', '_', 'M', 'I', 'S', 'S', 'I', 'N', 'G']);
        },
        ReasonCode::MarkerNotFoundAppendDisabled => {
            reveal_strlit("MARKER_NOT_FOUND_APPEND_DISABLED");
            assert(c.label() =~= seq!['M', 'A', 'R', 'K', 'E', 'R', '_', 'N', 'O', 'T', '_', 'F', 'O', 'U', 'N', 'D', '_', 'A', 'P', 'P', 'E', 'N', 'D', '_', 'D', 'I', 'S', 'A', 'B', 'L', 'E', 'D']);
        },
        ReasonCode::AdapterCapabilityMissing => {
            reveal_strlit("ADAPTER_CAPABILITY_MISSING");
            assert(c.label() =~= seq!['A', 'D', 'A', 'P', 'T', 'E', 'R', '_', 'C', 'A', 'P', 'A', 'B', 'I', 'L', 'I', 'T', 'Y', '_', 'M', 'I', 'S', 'S', 'I', 'N', 'G']);
        },
        ReasonCode::PlannerDryRun => {
            reveal_strlit("PLANNER_DRY_RUN");
            assert(c.label() =~= seq!['P', 'L', 'A', 'N', 'N', 'E', 'R', '_', 'D', 'R', 'Y', '_', 'R', 'U', 'N']);
        },
        ReasonCode::PlannerNoActions => {
            reveal_strlit("PLANNER_NO_ACTIONS");
            assert(c.label() =~= seq!['P', 'L', 'A', 'N', 'N', 'E', 'R', '_', 'N', 'O', '_', 'A', 'C', 'T', 'I', 'O', 'N', 'S']);
        },
        ReasonCode::PlannerInvalidTarget => {
            reveal_strlit("PLANNER_INVALID_TARGET");
            assert(c.label() =~= seq!['P', 'L', 'A', 'N', 'N', 'E', 'R', '_', 'I', 'N', 'V', 'A', 'L', 'I', 'D', '_', 'T', 'A', 'R', 'G', 'E', 'T']);
        },
        ReasonCode::ReportSerializationFailed => {
            reveal_strlit("REPORT_SERIALIZATION_FAILED");
            assert(c.label() =~= seq!['R', 'E', 'P', 'O', 'R', 'T', '_', 'S', 'E', 'R', 'I', 'A', 'L', 'I', 'Z', 'A', 'T', 'I', 'O', 'N', '_', 'F', 'A', 'I', 'L', 'E', 'D']);
        },
        ReasonCode::PlannerReady => {
            reveal_strlit("PLANNER_READY");
            assert(c.label() =~= seq!['P', 'L', 'A', 'N', 'N', 'E', 'R', '_', 'R', 'E', 'A', 'D', 'Y']);
        },
        ReasonCode::WallpaperPathMissing => {
            reveal_strlit("WALLPAPER_PATH_MISSING");
            assert(c.label() =~= seq!['W', 'A', 'L', 'L', 'P', 'A', 'P', 'E', 'R', '_', 'P', 'A', 'T', 'H', '_', 'M', 'I', 'S', 'S', 'I', 'N', 'G']);
        },
        ReasonCode::WallpaperUnsupportedFormat => {
            reveal_strlit("WALLPAPER_UNSUPPORTED_FORMAT");
            assert(c.label() =~= seq!['W', 'A', 'L', 'L', 'P', 'A', 'P', 'E', 'R', '_', 'U', 'N', 'S', 'U', 'P', 'P', 'O', 'R', 'T', 'E', 'D', '_', 'F', 'O', 'R', 'M', 'A', 'T']);
        },
        ReasonCode::WallpaperStateWriteFailed => {
            reveal_strlit("WALLPAPER_STATE_WRITE_FAILED");
            assert(c.label() =~= seq!['W', 'A', 'L', 'L', 'P', 'A', 'P', 'E', 'R', '_', 'S', 'T', 'A', 'T', 'E', '_', 'W', 'R', 'I', 'T', 'E', '_', 'F', 'A', 'I', 'L', 'E', 'D']);
        },
        ReasonCode::WallpaperCommandUnsafe => {
            reveal_strlit("WALLPAPER_COMMAND_UNSAFE");
            assert(c.label() =~= seq!['W', 'A', 'L', 'L', 'P', 'A', 'P', 'E', 'R', '_', 'C', 'O', 'M', 'M', 'A', 'N', 'D', '_', 'U', 'N', 'S', 'A', 'F', 'E']);
        },
        ReasonCode::WallpaperDecodeFailed => {
            reveal_strlit("WALLPAPER_DECODE_FAILED");
            assert(c.label() =~= seq!['W', 'A', 'L', 'L', 'P', 'A', 'P', 'E', 'R', '_', 'D', 'E', 'C', 'O', 'D', 'E', '_', 'F', 'A', 'I', 'L', 'E', 'D']);
        },
        ReasonCode::PaletteCacheIoFailed => {
            reveal_strlit("PALETTE_CACHE_IO_FAILED");
            assert(c.label() =~= seq!['P', 'A', 'L', 'E', 'T', 'T', 'E', '_', 'C', 'A', 'C', 'H', 'E', '_', 'I', 'O', '_', 'F', 'A', 'I', 'L', 'E', 'D']);
        },
        ReasonCode::CompositorSocketUnavailable => {
            reveal_strlit("COMPOSITOR_SOCKET_UNAVAILABLE");
            assert(c.label() =~= seq!['C', 'O', 'M', 'P', 'O', 'S', 'I', 'T', 'O', 'R', '_', 'S', 'O', 'C', 'K', 'E', 'T', '_', 'U', 'N', 'A', 'V', 'A', 'I', 'L', 'A', 'B', 'L', 'E']);
        },
        ReasonCode::PathOutsideAllowedRoot => {
            reveal_strlit("PATH_OUTSIDE_ALLOWED_ROOT");
            assert(c.label() =~= seq!['P', 'A', 'T', 'H', '_', 'O', 'U', 'T', 'S', 'I', 'D', 'E', '_', 'A', 'L', 'L', 'O', 'W', 'E', 'D', '_', 'R', 'O', 'O', 'T']);
        },
        ReasonCode::PathNotAbsolute => {
            reveal_strlit("PATH_NOT_ABSOLUTE");
            assert(c.label() =~= seq!['P', 'A', 'T', 'H', '_', 'N', 'O', 'T', '_', 'A', 'B', 'S', 'O', 'L', 'U', 'T', 'E']);
        },
        ReasonCode::HomeDirectoryMissing => {
            reveal_strlit("HOME_DIRECTORY_MISSING");
            assert(c.label() =~= seq!['H', 'O', 'M', 'E', '_', 'D', 'I', 'R', 'E', 'C', 'T', 'O', 'R', 'Y', '_', 'M', 'I', 'S', 'S', 'I', 'N', 'G']);
        },
        ReasonCode::EvidenceWriteFailed => {
            reveal_strlit("EVIDENCE_WRITE_FAILED");
            assert(c.label() =~= seq!['E', 'V', 'I', 'D', 'E', 'N', 'C', 'E', '_', 'W', 'R', 'I', 'T', 'E', '_', 'F', 'A', 'I', 'L', 'E', 'D']);
        },
        ReasonCode::DoctorUsageInvalid => {
            reveal_strlit("DOCTOR_USAGE_INVALID");
            assert(c.label() =~= seq!['D', 'O', 'C', 'T', 'O', 'R', '_', 'U', 'S', 'A', 'G', 'E', '_', 'I', 'N', 'V', 'A', 'L', 'I', 'D']);
        },
        ReasonCode::DoctorOutputFailed => {
            reveal_strlit("DOCTOR_OUTPUT_FAILED");
            assert(c.label() =~= seq!['D', 'O', 'C', 'T', 'O', 'R', '_', 'O', 'U', 'T', 'P', 'U', 'T', '_', 'F', 'A', 'I', 'L', 'E', 'D']);
        },
        ReasonCode::ThemeCycleNoThemes => {
            reveal_strlit("THEME_CYCLE_NO_THEMES");
            assert(c.label() =~= seq!['T', 'H', 'E', 'M', 'E', '_', 'C', 'Y', 'C', 'L', 'E', '_', 'N', 'O', '_', 'T', 'H', 'E', 'M', 'E', 'S']);
        },
        ReasonCode::ThemeCycleStateIoFailed => {
            reveal_strlit("THEME_CYCLE_STATE_IO_FAILED");
            assert(c.label() =~= seq!['T', 'H', 'E', 'M', 'E', '_', 'C', 'Y', 'C', 'L', 'E', '_', 'S', 'T', 'A', 'T', 'E', '_', 'I', 'O', '_', 'F', 'A', 'I', 'L', 'E', 'D']);
        },
        ReasonCode::ShortcutInstallFailed => {
            reveal_strlit("SHORTCUT_INSTALL_FAILED");
            assert(c.label() =~= seq!['S', 'H', 'O', 'R', 'T', 'C', 'U', 'T', '_', 'I', 'N', 'S', 'T', 'A', 'L', 'L', '_', 'F', 'A', 'I', 'L', 'E', 'D']);
        },
        ReasonCode::ShortcutUnsupportedCompositor => {
            reveal_strlit("SHORTCUT_UNSUPPORTED_COMPOSITOR");
            assert(c.label() =~= seq!['S', 'H', 'O', 'R', 'T', 'C', 'U', 'T', '_', 'U', 'N', 'S', 'U', 'P', 'P', 'O', 'R', 'T', 'E', 'D', '_', 'C', 'O', 'M', 'P', 'O', 'S', 'I', 'T', 'O', 'R']);
        },
        ReasonCode::SkipRestartPolicy => {
            reveal_strlit("SKIP_RESTART_POLICY");
            assert(c.label() =~= seq!['S', 'K', 'I', 'P', '_', 'R', 'E', 'S', 'T', 'A', 'R', 'T', '_', 'P', 'O', 'L', 'I', 'C', 'Y']);
        },
        ReasonCode::TransactionLockBusy => {
            reveal_strlit("TRANSACTION_LOCK_BUSY");
            assert(c.label() =~= seq!['T', 'R', 'A', 'N', 'S', 'A', 'C', 'T', 'I', 'O', 'N', '_', 'L', 'O', 'C', 'K', '_', 'B', 'U', 'S', 'Y']);
        },
    }
}

/// Reason-code labels are stable names: each is non-empty, made of capital letters and
/// underscores, and no two reason codes share one.
pub proof fn law_reason_labels_distinct(a: ReasonCode, b: ReasonCode)
    ensures
        a.label().len() > 0,
        forall|i: int| 0 <= i < a.label().len() ==> is_label_char(#[trigger] a.label()[i]),
        a.label() == b.label() ==> a == b,
{
    lemma_label_named(a);
    lemma_label_named(b);
}

} // verus!
