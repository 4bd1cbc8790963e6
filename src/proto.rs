//! Reconstruction of `.proto` source from a file descriptor.

use crate::descriptor::{EnumDesc, FieldDesc, FileDesc, MessageDesc, MethodDesc, ServiceDesc};
use crate::error::Error;
use crate::render::{file_text, syntax_of, syntax_text, ProtoSyntax};
use crate::text::str_eq;
use crate::writer::write_file;
use vstd::prelude::*;
use vstd::string::*;

verus! {

impl ProtoSyntax {
    /// The keyword of this syntax version.
    pub fn as_str(&self) -> (r: &'static str)
        ensures
            r@ == syntax_text(*self),
    {
        match self {
            ProtoSyntax::Proto2 => "proto2",
            ProtoSyntax::Proto3 => "proto3",
        }
    }

    /// The syntax version that a descriptor's `syntax` string names: `""`
    /// and `"proto2"` name proto2, `"proto3"` names proto3; anything else
    /// is unsupported.
    pub fn try_from(value: &str) -> (r: Result<ProtoSyntax, Error>)
        ensures
            match syntax_of(value@) {
                Some(s) => r == Ok::<ProtoSyntax, Error>(s),
                None => r matches Err(Error::UnsupportedSyntax { syntax }) && syntax@ == value@,
            },
    {
        if str_eq(value, "") || str_eq(value, "proto2") {
            Ok(ProtoSyntax::Proto2)
        } else if str_eq(value, "proto3") {
            Ok(ProtoSyntax::Proto3)
        } else {
            Err(Error::UnsupportedSyntax { syntax: String::from_str(value) })
        }
    }
}

/// Configuration of the source writer.
#[derive(Debug, Clone)]
pub struct ReconstructorConfig {
    /// Indentation unit (two spaces by default).
    pub indent_str: String,
    /// Whether comments would be written (not used yet).
    pub include_comments: bool,
    /// Whether fields would be sorted by number (not used yet).
    pub sort_fields: bool,
}

impl ReconstructorConfig {
    /// The default configuration: two-space indentation.
    pub fn new() -> (r: ReconstructorConfig)
        ensures
            r.indent_str@ == "  "@,
            r.include_comments,
            !r.sort_fields,
    {
        ReconstructorConfig { indent_str: String::from_str("  "), include_comments: true, sort_fields: false }
    }

    /// Sets the indentation unit.
    pub fn indent_str(self, s: &str) -> (r: ReconstructorConfig)
        ensures
            r.indent_str@ == s@,
            r.include_comments == self.include_comments,
            r.sort_fields == self.sort_fields,
    {
        ReconstructorConfig { indent_str: String::from_str(s), ..self }
    }

    /// Sets whether comments would be written.
    pub fn include_comments(self, on: bool) -> (r: ReconstructorConfig)
        ensures
            r == (ReconstructorConfig { include_comments: on, ..self }),
    {
        ReconstructorConfig { include_comments: on, ..self }
    }

    /// Sets whether fields would be sorted by number.
    pub fn sort_fields(self, sort: bool) -> (r: ReconstructorConfig)
        ensures
            r == (ReconstructorConfig { sort_fields: sort, ..self }),
    {
        ReconstructorConfig { sort_fields: sort, ..self }
    }
}

impl Default for ReconstructorConfig {
    fn default() -> (r: ReconstructorConfig)
        ensures
            r.indent_str@ == "  "@,
            r.include_comments,
            !r.sort_fields,
    {
        ReconstructorConfig::new()
    }
}

/// The part of `s` after its last `/` (all of `s` when it holds none).
pub open spec fn last_segment(s: Seq<char>) -> Seq<char>
    decreases s.len(),
{
    if s.len() == 0 {
        Seq::empty()
    } else if s.last() == '/' {
        Seq::empty()
    } else {
        last_segment(s.drop_last()).push(s.last())
    }
}

/// `s` without its trailing slashes and trailing `.` components.
pub open spec fn trim_slashes(s: Seq<char>) -> Seq<char>
    decreases s.len(),
{
    if s.len() > 0 && s.last() == '/' {
        trim_slashes(s.drop_last())
    } else if s.len() >= 2 && s.last() == '.' && s[s.len() - 2] == '/' {
        trim_slashes(s.subrange(0, s.len() - 2))
    } else {
        s
    }
}

/// The last component of the path `s`, trailing slashes and `.`
/// components ignored; all of `s` when that component is empty, `.` or
/// `..`, which name no file.
pub open spec fn base_name(s: Seq<char>) -> Seq<char> {
    let seg = last_segment(trim_slashes(s));
    if seg.len() == 0 || seg == ".."@ || seg == "."@ {
        s
    } else {
        seg
    }
}

/// Index of the first `;` in `s` at or after `i`.
pub open spec fn semicolon_from(s: Seq<char>, i: nat) -> Option<nat>
    decreases s.len() - i,
{
    if i >= s.len() {
        None
    } else if s[i as int] == ';' {
        Some(i)
    } else {
        semicolon_from(s, i + 1)
    }
}

/// Where the source of `fd` is written: `import/path/<base name>` when
/// its `go_package` reads `import/path;pkg`, else its own name.
pub open spec fn output_name(fd: FileDesc) -> Seq<char> {
    match fd.options {
        Some(o) => match o.go_package {
            Some(g) => match semicolon_from(g@, 0) {
                Some(k) => g@.subrange(0, k as int) + "/"@ + base_name(fd.name@),
                None => fd.name@,
            },
            None => fd.name@,
        },
        None => fd.name@,
    }
}

/// The last component of the path `s`; see [`base_name`].
fn base_name_of(s: &str) -> (r: String)
    ensures
        r@ == base_name(s@),
{
    let n: usize = s.unicode_len();
    let mut t: usize = n;
    assert(s@.subrange(0, n as int) =~= s@);
    while t > 0 && (s.get_char(t - 1) == '/' || (t >= 2 && s.get_char(t - 1) == '.' && s.get_char(t - 2)
        == '/'))
        invariant
            n == s@.len(),
            t <= n,
            trim_slashes(s@) == trim_slashes(s@.subrange(0, t as int)),
        decreases t,
    {
        if s.get_char(t - 1) == '/' {
            assert(s@.subrange(0, t as int).drop_last() =~= s@.subrange(0, t - 1));
            t = t - 1;
        } else {
            assert(s@.subrange(0, t as int).subrange(0, t - 2) =~= s@.subrange(0, t - 2));
            t = t - 2;
        }
    }
    assert(trim_slashes(s@.subrange(0, t as int)) == s@.subrange(0, t as int));
    let seg = last_segment_of(s.substring_char(0, t));
    proof {
        reveal_strlit("..");
        reveal_strlit(".");
    }
    if seg.as_str().unicode_len() == 0 || str_eq(seg.as_str(), "..") || str_eq(seg.as_str(), ".") {
        String::from_str(s)
    } else {
        seg
    }
}

/// The part of `s` after its last `/`.
fn last_segment_of(s: &str) -> (r: String)
    ensures
        r@ == last_segment(s@),
{
    let n: usize = s.unicode_len();
    let mut start: usize = n;
    assert(s@.subrange(0, n as int) =~= s@);
    assert(s@ + s@.subrange(n as int, n as int) =~= s@);
    while start > 0 && s.get_char(start - 1) != '/'
        invariant
            n == s@.len(),
            start <= n,
            last_segment(s@) == last_segment(s@.subrange(0, start as int)) + s@.subrange(start as int, n as int),
        decreases start,
    {
        let ghost p = s@.subrange(0, start as int);
        assert(p.drop_last() =~= s@.subrange(0, start - 1));
        assert(s@.subrange(start - 1, n as int) =~= seq![p.last()] + s@.subrange(start as int, n as int));
        assert(last_segment(p) == last_segment(p.drop_last()).push(p.last()));
        start = start - 1;
    }
    assert(last_segment(s@.subrange(0, start as int)) =~= Seq::<char>::empty());
    let t = s.substring_char(start, n);
    assert(last_segment(s@) =~= s@.subrange(start as int, n as int));
    String::from_str(t)
}

/// Reconstructs `.proto` source from a file descriptor.
#[derive(Debug)]
pub struct ProtoReconstructor {
    proto: FileDesc,
    syntax: ProtoSyntax,
    config: ReconstructorConfig,
}

impl ProtoReconstructor {
    /// The descriptor being reconstructed.
    pub closed spec fn spec_proto(self) -> FileDesc {
        self.proto
    }

    /// The writer configuration.
    pub closed spec fn spec_config(self) -> ReconstructorConfig {
        self.config
    }

    /// The syntax version that the descriptor names.
    pub closed spec fn spec_syntax(self) -> ProtoSyntax {
        self.syntax
    }

    /// A reconstructor of `proto` with the default configuration; fails
    /// with `UnsupportedSyntax` when its `syntax` string names no syntax
    /// version.
    pub fn from_proto(proto: FileDesc) -> (r: Result<ProtoReconstructor, Error>)
        ensures
            (r is Ok) <==> (syntax_of(proto.syntax@) is Some),
            r matches Ok(x) ==> x.spec_proto() == proto && x.spec_config().indent_str@ == "  "@ && Some(
                x.spec_syntax(),
            ) == syntax_of(proto.syntax@),
            r matches Err(e) ==> (e matches Error::UnsupportedSyntax { syntax } && syntax@ == proto.syntax@),
    {
        match ProtoSyntax::try_from(proto.syntax.as_str()) {
            Ok(syntax) => Ok(ProtoReconstructor { proto, syntax, config: ReconstructorConfig::new() }),
            Err(_) => Err(Error::UnsupportedSyntax { syntax: proto.syntax }),
        }
    }

    /// The same reconstructor with configuration `config`.
    pub fn with_config(self, config: ReconstructorConfig) -> (r: ProtoReconstructor)
        ensures
            r.spec_proto() == self.spec_proto(),
            r.spec_syntax() == self.spec_syntax(),
            r.spec_config() == config,
    {
        ProtoReconstructor { config, ..self }
    }

    /// The descriptor's file name, verbatim.
    pub fn filename(&self) -> (r: &str)
        ensures
            r@ == self.spec_proto().name@,
    {
        self.proto.name.as_str()
    }

    /// Where the reconstructed file goes: `import/path/<base name>` when
    /// `go_package` reads `import/path;pkg`, else the file name.
    pub fn output_filename(&self) -> (r: String)
        ensures
            r@ == output_name(self.spec_proto()),
    {
        let name = self.proto.name.as_str();
        match &self.proto.options {
            Some(o) => match &o.go_package {
                Some(g) => {
                    let gs = g.as_str();
                    let n: usize = gs.unicode_len();
                    let mut k: usize = 0;
                    while k < n && gs.get_char(k) != ';'
                        invariant
                            n == gs@.len(),
                            k <= n,
                            semicolon_from(gs@, 0) == semicolon_from(gs@, k as nat),
                        decreases n - k,
                    {
                        k = k + 1;
                    }
                    if k < n {
                        let mut r = String::from_str(gs.substring_char(0, k));
                        r.append("/");
                        let b = base_name_of(name);
                        r.append(b.as_str());
                        return r;
                    }
                    String::from_str(name)
                },
                None => String::from_str(name),
            },
            None => String::from_str(name),
        }
    }

    /// The syntax version that the descriptor names.
    pub fn syntax(&self) -> (r: ProtoSyntax)
        ensures
            r == self.spec_syntax(),
    {
        self.syntax
    }

    /// The descriptor.
    pub fn proto(&self) -> (r: &FileDesc)
        ensures
            *r == self.spec_proto(),
    {
        &self.proto
    }

    /// The `.proto` source of the descriptor.
    pub fn reconstruct(&self) -> (r: String)
        ensures
            r@ == file_text(self.spec_proto(), self.spec_syntax(), self.spec_config().indent_str@),
    {
        let mut out = String::new();
        self.write_to(&mut out);
        assert(out@ =~= file_text(
            self.spec_proto(),
            self.spec_syntax(),
            self.spec_config().indent_str@,
        ));
        out
    }

    /// Appends the `.proto` source of the descriptor to `out`.
    pub fn write_to(&self, out: &mut String)
        ensures
            final(out)@ == old(out)@ + file_text(
                self.spec_proto(),
                self.spec_syntax(),
                self.spec_config().indent_str@,
            ),
    {
        let syn = self.syntax();
        write_file(out, &self.proto, syn, self.config.indent_str.as_str());
    }
}

/// Receivers of the constructs of a descriptor, one method per construct;
/// each does nothing unless an implementation says otherwise.
pub trait ProtoWriter {
    /// Receives a file.
    fn write_file(&mut self, file: &FileDesc) -> Result<(), Error> {
        Ok(())
    }

    /// Receives a message.
    fn write_message(&mut self, message: &MessageDesc) -> Result<(), Error> {
        Ok(())
    }

    /// Receives a field.
    fn write_field(&mut self, field: &FieldDesc) -> Result<(), Error> {
        Ok(())
    }

    /// Receives an enum.
    fn write_enum(&mut self, enum_type: &EnumDesc) -> Result<(), Error> {
        Ok(())
    }

    /// Receives a service.
    fn write_service(&mut self, service: &ServiceDesc) -> Result<(), Error> {
        Ok(())
    }

    /// Receives a method.
    fn write_method(&mut self, method: &MethodDesc) -> Result<(), Error> {
        Ok(())
    }

    /// Receives a oneof, by its name.
    fn write_oneof(&mut self, name: &str) -> Result<(), Error> {
        Ok(())
    }
}

/// A writer that discards everything.
pub struct NullWriter;

impl ProtoWriter for NullWriter {

}

/// A writer that counts the constructs it receives; counts stop at
/// `usize::MAX`.
#[derive(Debug, Default)]
pub struct StatsWriter {
    /// Number of messages.
    pub message_count: usize,
    /// Number of fields.
    pub field_count: usize,
    /// Number of enums.
    pub enum_count: usize,
    /// Number of services.
    pub service_count: usize,
    /// Number of methods.
    pub method_count: usize,
}

impl ProtoWriter for StatsWriter {
    fn write_message(&mut self, message: &MessageDesc) -> Result<(), Error> {
        self.message_count = self.message_count.saturating_add(1);
        Ok(())
    }

    fn write_field(&mut self, field: &FieldDesc) -> Result<(), Error> {
        self.field_count = self.field_count.saturating_add(1);
        Ok(())
    }

    fn write_enum(&mut self, enum_type: &EnumDesc) -> Result<(), Error> {
        self.enum_count = self.enum_count.saturating_add(1);
        Ok(())
    }

    fn write_service(&mut self, service: &ServiceDesc) -> Result<(), Error> {
        self.service_count = self.service_count.saturating_add(1);
        Ok(())
    }

    fn write_method(&mut self, method: &MethodDesc) -> Result<(), Error> {
        self.method_count = self.method_count.saturating_add(1);
        Ok(())
    }
}

} // verus!
