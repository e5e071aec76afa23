//! Classification of the diagnostic messages that the graphics driver
//! reports: which are worth showing, and how their numeric tags read.

use vstd::prelude::*;

verus! {

// The tags of the graphics interface for where a message comes from.
pub const DEBUG_SOURCE_API: u32 = 0x8246;
pub const DEBUG_SOURCE_WINDOW_SYSTEM: u32 = 0x8247;
pub const DEBUG_SOURCE_SHADER_COMPILER: u32 = 0x8248;
pub const DEBUG_SOURCE_THIRD_PARTY: u32 = 0x8249;
pub const DEBUG_SOURCE_APPLICATION: u32 = 0x824A;
pub const DEBUG_SOURCE_OTHER: u32 = 0x824B;

// The tags for what a message is about.
pub const DEBUG_TYPE_ERROR: u32 = 0x824C;
pub const DEBUG_TYPE_DEPRECATED_BEHAVIOR: u32 = 0x824D;
pub const DEBUG_TYPE_UNDEFINED_BEHAVIOR: u32 = 0x824E;
pub const DEBUG_TYPE_PORTABILITY: u32 = 0x824F;
pub const DEBUG_TYPE_PERFORMANCE: u32 = 0x8250;
pub const DEBUG_TYPE_OTHER: u32 = 0x8251;
pub const DEBUG_TYPE_MARKER: u32 = 0x8268;
pub const DEBUG_TYPE_PUSH_GROUP: u32 = 0x8269;
pub const DEBUG_TYPE_POP_GROUP: u32 = 0x826A;

// The tags for how serious a message is.
pub const DEBUG_SEVERITY_NOTIFICATION: u32 = 0x826B;
pub const DEBUG_SEVERITY_HIGH: u32 = 0x9146;
pub const DEBUG_SEVERITY_MEDIUM: u32 = 0x9147;
pub const DEBUG_SEVERITY_LOW: u32 = 0x9148;

/// Where a driver message comes from.
#[derive(Clone, Copy, Debug, PartialEq, Eq, Structural)]
pub enum DebugSource {
    Api,
    WindowSystem,
    ShaderCompiler,
    ThirdParty,
    Application,
    Other,
}

/// What a driver message is about.
#[derive(Clone, Copy, Debug, PartialEq, Eq, Structural)]
pub enum DebugType {
    Error,
    DeprecatedBehavior,
    UndefinedBehavior,
    Portability,
    Performance,
    Marker,
    PushGroup,
    PopGroup,
    Other,
}

/// How serious a driver message is.
#[derive(Clone, Copy, Debug, PartialEq, Eq, Structural)]
pub enum DebugSeverity {
    High,
    Medium,
    Low,
    Notification,
}

/// A driver message that is worth showing, with each tag that was recognised.
#[derive(Clone, Copy, Debug, PartialEq, Eq, Structural)]
pub struct DebugReport {
    pub id: u32,
    pub source: Option<DebugSource>,
    pub kind: Option<DebugType>,
    pub severity: Option<DebugSeverity>,
}

/// The message ids that carry no information and are never shown.
pub open spec fn insignificant(id: u32) -> bool {
    id == 131169 || id == 131185 || id == 131218 || id == 131204
}

/// The source that a tag stands for, if it is the tag of a source.
pub open spec fn source_of(tag: u32) -> Option<DebugSource> {
    if tag == DEBUG_SOURCE_API {
        Some(DebugSource::Api)
    } else if tag == DEBUG_SOURCE_WINDOW_SYSTEM {
        Some(DebugSource::WindowSystem)
    } else if tag == DEBUG_SOURCE_SHADER_COMPILER {
        Some(DebugSource::ShaderCompiler)
    } else if tag == DEBUG_SOURCE_THIRD_PARTY {
        Some(DebugSource::ThirdParty)
    } else if tag == DEBUG_SOURCE_APPLICATION {
        Some(DebugSource::Application)
    } else if tag == DEBUG_SOURCE_OTHER {
        Some(DebugSource::Other)
    } else {
        None
    }
}

/// The type that a tag stands for, if it is the tag of a type.
pub open spec fn type_of(tag: u32) -> Option<DebugType> {
    if tag == DEBUG_TYPE_ERROR {
        Some(DebugType::Error)
    } else if tag == DEBUG_TYPE_DEPRECATED_BEHAVIOR {
        Some(DebugType::DeprecatedBehavior)
    } else if tag == DEBUG_TYPE_UNDEFINED_BEHAVIOR {
        Some(DebugType::UndefinedBehavior)
    } else if tag == DEBUG_TYPE_PORTABILITY {
        Some(DebugType::Portability)
    } else if tag == DEBUG_TYPE_PERFORMANCE {
        Some(DebugType::Performance)
    } else if tag == DEBUG_TYPE_MARKER {
        Some(DebugType::Marker)
    } else if tag == DEBUG_TYPE_PUSH_GROUP {
        Some(DebugType::PushGroup)
    } else if tag == DEBUG_TYPE_POP_GROUP {
        Some(DebugType::PopGroup)
    } else if tag == DEBUG_TYPE_OTHER {
        Some(DebugType::Other)
    } else {
        None
    }
}

/// The severity that a tag stands for, if it is the tag of a severity.
pub open spec fn severity_of(tag: u32) -> Option<DebugSeverity> {
    if tag == DEBUG_SEVERITY_HIGH {
        Some(DebugSeverity::High)
    } else if tag == DEBUG_SEVERITY_MEDIUM {
        Some(DebugSeverity::Medium)
    } else if tag == DEBUG_SEVERITY_LOW {
        Some(DebugSeverity::Low)
    } else if tag == DEBUG_SEVERITY_NOTIFICATION {
        Some(DebugSeverity::Notification)
    } else {
        None
    }
}

/// What `gl_debug_output` makes of a message: nothing for an insignificant
/// id, else the id with each tag decoded.
pub open spec fn report_of(source: u32, gltype: u32, id: u32, severity: u32) -> Option<DebugReport> {
    if insignificant(id) {
        None
    } else {
        Some(
            DebugReport {
                id,
                source: source_of(source),
                kind: type_of(gltype),
                severity: severity_of(severity),
            },
        )
    }
}

impl DebugSource {
    /// The text of the line that names this source in a log.
    pub open spec fn label_text(self) -> Seq<char> {
        match self {
            DebugSource::Api => "Source: API"@,
            DebugSource::WindowSystem => "Source: Window System"@,
            DebugSource::ShaderCompiler => "Source: Shader Compiler"@,
            DebugSource::ThirdParty => "Source: Third Party"@,
            DebugSource::Application => "Source: Application"@,
            DebugSource::Other => "Source: Other"@,
        }
    }

    /// Decodes a source tag; an unknown tag has no source.
    pub fn from_tag(tag: u32) -> (source: Option<DebugSource>)
        ensures
            source == source_of(tag),
    {
        if tag == DEBUG_SOURCE_API {
            Some(DebugSource::Api)
        } else if tag == DEBUG_SOURCE_WINDOW_SYSTEM {
            Some(DebugSource::WindowSystem)
        } else if tag == DEBUG_SOURCE_SHADER_COMPILER {
            Some(DebugSource::ShaderCompiler)
        } else if tag == DEBUG_SOURCE_THIRD_PARTY {
            Some(DebugSource::ThirdParty)
        } else if tag == DEBUG_SOURCE_APPLICATION {
            Some(DebugSource::Application)
        } else if tag == DEBUG_SOURCE_OTHER {
            Some(DebugSource::Other)
        } else {
            None
        }
    }

    /// The line that names this source in a log.
    pub fn label(self) -> (text: &'static str)
        ensures
            text@ == self.label_text(),
    {
        match self {
            DebugSource::Api => "Source: API",
            DebugSource::WindowSystem => "Source: Window System",
            DebugSource::ShaderCompiler => "Source: Shader Compiler",
            DebugSource::ThirdParty => "Source: Third Party",
            DebugSource::Application => "Source: Application",
            DebugSource::Other => "Source: Other",
        }
    }
}

impl DebugType {
    /// The text of the line that names this type in a log.
    pub open spec fn label_text(self) -> Seq<char> {
        match self {
            DebugType::Error => "Type: Error"@,
            DebugType::DeprecatedBehavior => "Type: Deprecated Behaviour"@,
            DebugType::UndefinedBehavior => "Type: Undefined Behaviour"@,
            DebugType::Portability => "Type: Portability"@,
            DebugType::Performance => "Type: Performance"@,
            DebugType::Marker => "Type: Marker"@,
            DebugType::PushGroup => "Type: Push Group"@,
            DebugType::PopGroup => "Type: Pop Group"@,
            DebugType::Other => "Type: Other"@,
        }
    }

    /// Decodes a type tag; an unknown tag has no type.
    pub fn from_tag(tag: u32) -> (kind: Option<DebugType>)
        ensures
            kind == type_of(tag),
    {
        if tag == DEBUG_TYPE_ERROR {
            Some(DebugType::Error)
        } else if tag == DEBUG_TYPE_DEPRECATED_BEHAVIOR {
            Some(DebugType::DeprecatedBehavior)
        } else if tag == DEBUG_TYPE_UNDEFINED_BEHAVIOR {
            Some(DebugType::UndefinedBehavior)
        } else if tag == DEBUG_TYPE_PORTABILITY {
            Some(DebugType::Portability)
        } else if tag == DEBUG_TYPE_PERFORMANCE {
            Some(DebugType::Performance)
        } else if tag == DEBUG_TYPE_MARKER {
            Some(DebugType::Marker)
        } else if tag == DEBUG_TYPE_PUSH_GROUP {
            Some(DebugType::PushGroup)
        } else if tag == DEBUG_TYPE_POP_GROUP {
            Some(DebugType::PopGroup)
        } else if tag == DEBUG_TYPE_OTHER {
            Some(DebugType::Other)
        } else {
            None
        }
    }

    /// The line that names this type in a log.
    pub fn label(self) -> (text: &'static str)
        ensures
            text@ == self.label_text(),
    {
        match self {
            DebugType::Error => "Type: Error",
            DebugType::DeprecatedBehavior => "Type: Deprecated Behaviour",
            DebugType::UndefinedBehavior => "Type: Undefined Behaviour",
            DebugType::Portability => "Type: Portability",
            DebugType::Performance => "Type: Performance",
            DebugType::Marker => "Type: Marker",
            DebugType::PushGroup => "Type: Push Group",
            DebugType::PopGroup => "Type: Pop Group",
            DebugType::Other => "Type: Other",
        }
    }
}

impl DebugSeverity {
    /// The text of the line that names this severity in a log.
    pub open spec fn label_text(self) -> Seq<char> {
        match self {
            DebugSeverity::High => "Severity: high"@,
            DebugSeverity::Medium => "Severity: medium"@,
            DebugSeverity::Low => "Severity: low"@,
            DebugSeverity::Notification => "Severity: notification"@,
        }
    }

    /// Decodes a severity tag; an unknown tag has no severity.
    pub fn from_tag(tag: u32) -> (severity: Option<DebugSeverity>)
        ensures
            severity == severity_of(tag),
    {
        if tag == DEBUG_SEVERITY_HIGH {
            Some(DebugSeverity::High)
        } else if tag == DEBUG_SEVERITY_MEDIUM {
            Some(DebugSeverity::Medium)
        } else if tag == DEBUG_SEVERITY_LOW {
            Some(DebugSeverity::Low)
        } else if tag == DEBUG_SEVERITY_NOTIFICATION {
            Some(DebugSeverity::Notification)
        } else {
            None
        }
    }

    /// The line that names this severity in a log.
    pub fn label(self) -> (text: &'static str)
        ensures
            text@ == self.label_text(),
    {
        match self {
            DebugSeverity::High => "Severity: high",
            DebugSeverity::Medium => "Severity: medium",
            DebugSeverity::Low => "Severity: low",
            DebugSeverity::Notification => "Severity: notification",
        }
    }
}

/// Whether a message id is one of those that are never shown.
pub fn is_insignificant(id: u32) -> (skip: bool)
    ensures
        skip == insignificant(id),
{
    id == 131169 || id == 131185 || id == 131218 || id == 131204
}

/// Decides what to show of a driver message: nothing when its id is
/// insignificant, else a report with the tags decoded.
pub fn gl_debug_output(source: u32, gltype: u32, id: u32, severity: u32) -> (report: Option<
    DebugReport,
>)
    ensures
        report == report_of(source, gltype, id, severity),
{
    if is_insignificant(id) {
        return None;
    }
    Some(
        DebugReport {
            id,
            source: DebugSource::from_tag(source),
            kind: DebugType::from_tag(gltype),
            severity: DebugSeverity::from_tag(severity),
        },
    )
}

impl DebugReport {
    /// The label lines of this report in the order in which they are shown:
    /// source, type, severity, each only if its tag was recognised.
    pub open spec fn label_lines(self) -> Seq<Seq<char>> {
        let a: Seq<Seq<char>> = match self.source {
            Some(s) => seq![s.label_text()],
            None => seq![],
        };
        let b: Seq<Seq<char>> = match self.kind {
            Some(k) => seq![k.label_text()],
            None => seq![],
        };
        let c: Seq<Seq<char>> = match self.severity {
            Some(v) => seq![v.label_text()],
            None => seq![],
        };
        a + b + c
    }

    /// The label lines to show for this report.
    pub fn labels(&self) -> (lines: Vec<&'static str>)
        ensures
            lines@.len() == self.label_lines().len(),
            forall|i: int| 0 <= i < lines@.len() ==> (#[trigger] lines@[i])@ == self.label_lines()[i],
    {
        let mut lines: Vec<&'static str> = Vec::new();
        if let Some(s) = self.source {
            lines.push(s.label());
        }
        if let Some(k) = self.kind {
            lines.push(k.label());
        }
        if let Some(v) = self.severity {
            lines.push(v.label());
        }
        lines
    }
}

} // verus!
