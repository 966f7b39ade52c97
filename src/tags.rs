//! The closed vocabulary of control-stanza field names, with a catch-all for
//! names outside it.

use vstd::prelude::*;

use crate::text::same_text;

verus! {

/// A control-stanza field, or `Unknown` with the name as it was written.
#[derive(Clone, Debug)]
pub enum ControlTag {
    Package,
    Version,
    Source,
    Architecture,
    Maintainer,
    OriginalMaintainer,
    InstalledSize,
    Replaces,
    Section,
    MultiArch,
    Homepage,
    Description,
    Breaks,
    Depends,
    Suggests,
    Priority,
    BuiltUsing,
    Recommends,
    Conflicts,
    Provides,
    Enhances,
    BuildIds,
    PreDepends,
    Tag,
    Essential,
    Bugs,
    Task,
    Important,
    Modaliases,
    CnfVisiblePkgname,
    CnfExtraCommands,
    CnfIgnoreCommands,
    UbuntuOemKernelFlavour,
    RubyVersions,
    LuaVersions,
    PythonVersion,
    Python3Version,
    PythonEggName,
    XCargoBuiltUsing,
    GhcPackage,
    GoImportPath,
    GstreamerElements,
    GstreamerEncoders,
    GstreamerDecoders,
    GstreamerVersion,
    GstreamerUriSources,
    GstreamerUriSinks,
    OriginalVcsGit,
    EfiVendor,
    OriginalVcsBrowser,
    PostgresqlCatversion,
    XulAppid,
    NppApplications,
    NppDescription,
    NppFile,
    NppMimetype,
    Unknown(String),
}

/// The field name a tag stands for.
pub open spec fn tag_name(t: ControlTag) -> Seq<char> {
    match t {
        ControlTag::Package => "Package"@,
        ControlTag::Version => "Version"@,
        ControlTag::Source => "Source"@,
        ControlTag::Architecture => "Architecture"@,
        ControlTag::Maintainer => "Maintainer"@,
        ControlTag::OriginalMaintainer => "Original-Maintainer"@,
        ControlTag::InstalledSize => "Installed-Size"@,
        ControlTag::Replaces => "Replaces"@,
        ControlTag::Section => "Section"@,
        ControlTag::MultiArch => "Multi-Arch"@,
        ControlTag::Homepage => "Homepage"@,
        ControlTag::Description => "Description"@,
        ControlTag::Breaks => "Breaks"@,
        ControlTag::Depends => "Depends"@,
        ControlTag::Suggests => "Suggests"@,
        ControlTag::Priority => "Priority"@,
        ControlTag::BuiltUsing => "Built-Using"@,
        ControlTag::Recommends => "Recommends"@,
        ControlTag::Conflicts => "Conflicts"@,
        ControlTag::Provides => "Provides"@,
        ControlTag::Enhances => "Enhances"@,
        ControlTag::BuildIds => "Build-Ids"@,
        ControlTag::PreDepends => "Pre-Depends"@,
        ControlTag::Tag => "Tag"@,
        ControlTag::Essential => "Essential"@,
        ControlTag::Bugs => "Bugs"@,
        ControlTag::Task => "Task"@,
        ControlTag::Important => "Important"@,
        ControlTag::Modaliases => "Modaliases"@,
        ControlTag::CnfVisiblePkgname => "Cnf-Visible-Pkgname"@,
        ControlTag::CnfExtraCommands => "Cnf-Extra-Commands"@,
        ControlTag::CnfIgnoreCommands => "Cnf-Ignore-Commands"@,
        ControlTag::UbuntuOemKernelFlavour => "Ubuntu-Oem-Kernel-Flavour"@,
        ControlTag::RubyVersions => "Ruby-Versions"@,
        ControlTag::LuaVersions => "Lua-Versions"@,
        ControlTag::PythonVersion => "Python-Version"@,
        ControlTag::Python3Version => "Python3-Version"@,
        ControlTag::PythonEggName => "Python-Egg-Name"@,
        ControlTag::XCargoBuiltUsing => "X-Cargo-Built-Using"@,
        ControlTag::GhcPackage => "Ghc-Package"@,
        ControlTag::GoImportPath => "Go-Import-Path"@,
        ControlTag::GstreamerElements => "Gstreamer-Elements"@,
        ControlTag::GstreamerEncoders => "Gstreamer-Encoders"@,
        ControlTag::GstreamerDecoders => "Gstreamer-Decoders"@,
        ControlTag::GstreamerVersion => "Gstreamer-Version"@,
        ControlTag::GstreamerUriSources => "Gstreamer-Uri-Sources"@,
        ControlTag::GstreamerUriSinks => "Gstreamer-Uri-Sinks"@,
        ControlTag::OriginalVcsGit => "Original-Vcs-Git"@,
        ControlTag::EfiVendor => "Efi-Vendor"@,
        ControlTag::OriginalVcsBrowser => "Original-Vcs-Browser"@,
        ControlTag::PostgresqlCatversion => "Postgresql-Catversion"@,
        ControlTag::XulAppid => "Xul-Appid"@,
        ControlTag::NppApplications => "Npp-Applications"@,
        ControlTag::NppDescription => "Npp-Description"@,
        ControlTag::NppFile => "Npp-File"@,
        ControlTag::NppMimetype => "Npp-Mimetype"@,
        ControlTag::Unknown(x) => x@,
    }
}

/// The known tag a field name spells, if any.
pub open spec fn recognized(s: Seq<char>) -> Option<ControlTag> {
    if s == "Package"@ {
        Some(ControlTag::Package)
    } else if s == "Version"@ {
        Some(ControlTag::Version)
    } else if s == "Source"@ {
        Some(ControlTag::Source)
    } else if s == "Architecture"@ {
        Some(ControlTag::Architecture)
    } else if s == "Maintainer"@ {
        Some(ControlTag::Maintainer)
    } else if s == "Original-Maintainer"@ {
        Some(ControlTag::OriginalMaintainer)
    } else if s == "Installed-Size"@ {
        Some(ControlTag::InstalledSize)
    } else if s == "Replaces"@ {
        Some(ControlTag::Replaces)
    } else if s == "Section"@ {
        Some(ControlTag::Section)
    } else if s == "Multi-Arch"@ {
        Some(ControlTag::MultiArch)
    } else if s == "Homepage"@ {
        Some(ControlTag::Homepage)
    } else if s == "Description"@ {
        Some(ControlTag::Description)
    } else if s == "Breaks"@ {
        Some(ControlTag::Breaks)
    } else if s == "Depends"@ {
        Some(ControlTag::Depends)
    } else if s == "Suggests"@ {
        Some(ControlTag::Suggests)
    } else if s == "Priority"@ {
        Some(ControlTag::Priority)
    } else if s == "Built-Using"@ {
        Some(ControlTag::BuiltUsing)
    } else if s == "Recommends"@ {
        Some(ControlTag::Recommends)
    } else if s == "Conflicts"@ {
        Some(ControlTag::Conflicts)
    } else if s == "Provides"@ {
        Some(ControlTag::Provides)
    } else if s == "Enhances"@ {
        Some(ControlTag::Enhances)
    } else if s == "Build-Ids"@ {
        Some(ControlTag::BuildIds)
    } else if s == "Pre-Depends"@ {
        Some(ControlTag::PreDepends)
    } else if s == "Tag"@ {
        Some(ControlTag::Tag)
    } else if s == "Essential"@ {
        Some(ControlTag::Essential)
    } else if s == "Bugs"@ {
        Some(ControlTag::Bugs)
    } else if s == "Task"@ {
        Some(ControlTag::Task)
    } else if s == "Important"@ {
        Some(ControlTag::Important)
    } else if s == "Modaliases"@ {
        Some(ControlTag::Modaliases)
    } else if s == "Cnf-Visible-Pkgname"@ {
        Some(ControlTag::CnfVisiblePkgname)
    } else if s == "Cnf-Extra-Commands"@ {
        Some(ControlTag::CnfExtraCommands)
    } else if s == "Cnf-Ignore-Commands"@ {
        Some(ControlTag::CnfIgnoreCommands)
    } else if s == "Ubuntu-Oem-Kernel-Flavour"@ {
        Some(ControlTag::UbuntuOemKernelFlavour)
    } else if s == "Ruby-Versions"@ {
        Some(ControlTag::RubyVersions)
    } else if s == "Lua-Versions"@ {
        Some(ControlTag::LuaVersions)
    } else if s == "Python-Version"@ {
        Some(ControlTag::PythonVersion)
    } else if s == "Python3-Version"@ {
        Some(ControlTag::Python3Version)
    } else if s == "Python-Egg-Name"@ {
        Some(ControlTag::PythonEggName)
    } else if s == "X-Cargo-Built-Using"@ {
        Some(ControlTag::XCargoBuiltUsing)
    } else if s == "Ghc-Package"@ {
        Some(ControlTag::GhcPackage)
    } else if s == "Go-Import-Path"@ {
        Some(ControlTag::GoImportPath)
    } else if s == "Gstreamer-Elements"@ {
        Some(ControlTag::GstreamerElements)
    } else if s == "Gstreamer-Encoders"@ {
        Some(ControlTag::GstreamerEncoders)
    } else if s == "Gstreamer-Decoders"@ {
        Some(ControlTag::GstreamerDecoders)
    } else if s == "Gstreamer-Version"@ {
        Some(ControlTag::GstreamerVersion)
    } else if s == "Gstreamer-Uri-Sources"@ {
        Some(ControlTag::GstreamerUriSources)
    } else if s == "Gstreamer-Uri-Sinks"@ {
        Some(ControlTag::GstreamerUriSinks)
    } else if s == "Original-Vcs-Git"@ {
        Some(ControlTag::OriginalVcsGit)
    } else if s == "Efi-Vendor"@ {
        Some(ControlTag::EfiVendor)
    } else if s == "Original-Vcs-Browser"@ {
        Some(ControlTag::OriginalVcsBrowser)
    } else if s == "Postgresql-Catversion"@ {
        Some(ControlTag::PostgresqlCatversion)
    } else if s == "Xul-Appid"@ {
        Some(ControlTag::XulAppid)
    } else if s == "Npp-Applications"@ {
        Some(ControlTag::NppApplications)
    } else if s == "Npp-Description"@ {
        Some(ControlTag::NppDescription)
    } else if s == "Npp-File"@ {
        Some(ControlTag::NppFile)
    } else if s == "Npp-Mimetype"@ {
        Some(ControlTag::NppMimetype)
    } else {
        None
    }
}

impl ControlTag {
    /// The field name of this tag; for `Unknown`, the stored name.
    pub fn field_name(&self) -> (r: &str)
        ensures
            r@ == tag_name(*self),
    {
        match self {
            ControlTag::Package => "Package",
            ControlTag::Version => "Version",
            ControlTag::Source => "Source",
            ControlTag::Architecture => "Architecture",
            ControlTag::Maintainer => "Maintainer",
            ControlTag::OriginalMaintainer => "Original-Maintainer",
            ControlTag::InstalledSize => "Installed-Size",
            ControlTag::Replaces => "Replaces",
            ControlTag::Section => "Section",
            ControlTag::MultiArch => "Multi-Arch",
            ControlTag::Homepage => "Homepage",
            ControlTag::Description => "Description",
            ControlTag::Breaks => "Breaks",
            ControlTag::Depends => "Depends",
            ControlTag::Suggests => "Suggests",
            ControlTag::Priority => "Priority",
            ControlTag::BuiltUsing => "Built-Using",
            ControlTag::Recommends => "Recommends",
            ControlTag::Conflicts => "Conflicts",
            ControlTag::Provides => "Provides",
            ControlTag::Enhances => "Enhances",
            ControlTag::BuildIds => "Build-Ids",
            ControlTag::PreDepends => "Pre-Depends",
            ControlTag::Tag => "Tag",
            ControlTag::Essential => "Essential",
            ControlTag::Bugs => "Bugs",
            ControlTag::Task => "Task",
            ControlTag::Important => "Important",
            ControlTag::Modaliases => "Modaliases",
            ControlTag::CnfVisiblePkgname => "Cnf-Visible-Pkgname",
            ControlTag::CnfExtraCommands => "Cnf-Extra-Commands",
            ControlTag::CnfIgnoreCommands => "Cnf-Ignore-Commands",
            ControlTag::UbuntuOemKernelFlavour => "Ubuntu-Oem-Kernel-Flavour",
            ControlTag::RubyVersions => "Ruby-Versions",
            ControlTag::LuaVersions => "Lua-Versions",
            ControlTag::PythonVersion => "Python-Version",
            ControlTag::Python3Version => "Python3-Version",
            ControlTag::PythonEggName => "Python-Egg-Name",
            ControlTag::XCargoBuiltUsing => "X-Cargo-Built-Using",
            ControlTag::GhcPackage => "Ghc-Package",
            ControlTag::GoImportPath => "Go-Import-Path",
            ControlTag::GstreamerElements => "Gstreamer-Elements",
            ControlTag::GstreamerEncoders => "Gstreamer-Encoders",
            ControlTag::GstreamerDecoders => "Gstreamer-Decoders",
            ControlTag::GstreamerVersion => "Gstreamer-Version",
            ControlTag::GstreamerUriSources => "Gstreamer-Uri-Sources",
            ControlTag::GstreamerUriSinks => "Gstreamer-Uri-Sinks",
            ControlTag::OriginalVcsGit => "Original-Vcs-Git",
            ControlTag::EfiVendor => "Efi-Vendor",
            ControlTag::OriginalVcsBrowser => "Original-Vcs-Browser",
            ControlTag::PostgresqlCatversion => "Postgresql-Catversion",
            ControlTag::XulAppid => "Xul-Appid",
            ControlTag::NppApplications => "Npp-Applications",
            ControlTag::NppDescription => "Npp-Description",
            ControlTag::NppFile => "Npp-File",
            ControlTag::NppMimetype => "Npp-Mimetype",
            ControlTag::Unknown(x) => x.as_str(),
        }
    }
}

/// The tag for a field name: the known tag it spells, else `Unknown` holding
/// the name verbatim. Matching is exact, letter case included.
pub fn tag_from_name(name: &str) -> (r: ControlTag)
    ensures
        (match recognized(name@) {
            Some(t) => r == t,
            None => r matches ControlTag::Unknown(x) && x@ == name@,
        }),
        tag_name(r) == name@,
{
    if same_text(name, "Package") {
        ControlTag::Package
    } else if same_text(name, "Version") {
        ControlTag::Version
    } else if same_text(name, "Source") {
        ControlTag::Source
    } else if same_text(name, "Architecture") {
        ControlTag::Architecture
    } else if same_text(name, "Maintainer") {
        ControlTag::Maintainer
    } else if same_text(name, "Original-Maintainer") {
        ControlTag::OriginalMaintainer
    } else if same_text(name, "Installed-Size") {
        ControlTag::InstalledSize
    } else if same_text(name, "Replaces") {
        ControlTag::Replaces
    } else if same_text(name, "Section") {
        ControlTag::Section
    } else if same_text(name, "Multi-Arch") {
        ControlTag::MultiArch
    } else if same_text(name, "Homepage") {
        ControlTag::Homepage
    } else if same_text(name, "Description") {
        ControlTag::Description
    } else if same_text(name, "Breaks") {
        ControlTag::Breaks
    } else if same_text(name, "Depends") {
        ControlTag::Depends
    } else if same_text(name, "Suggests") {
        ControlTag::Suggests
    } else if same_text(name, "Priority") {
        ControlTag::Priority
    } else if same_text(name, "Built-Using") {
        ControlTag::BuiltUsing
    } else if same_text(name, "Recommends") {
        ControlTag::Recommends
    } else if same_text(name, "Conflicts") {
        ControlTag::Conflicts
    } else if same_text(name, "Provides") {
        ControlTag::Provides
    } else if same_text(name, "Enhances") {
        ControlTag::Enhances
    } else if same_text(name, "Build-Ids") {
        ControlTag::BuildIds
    } else if same_text(name, "Pre-Depends") {
        ControlTag::PreDepends
    } else if same_text(name, "Tag") {
        ControlTag::Tag
    } else if same_text(name, "Essential") {
        ControlTag::Essential
    } else if same_text(name, "Bugs") {
        ControlTag::Bugs
    } else if same_text(name, "Task") {
        ControlTag::Task
    } else if same_text(name, "Important") {
        ControlTag::Important
    } else if same_text(name, "Modaliases") {
        ControlTag::Modaliases
    } else if same_text(name, "Cnf-Visible-Pkgname") {
        ControlTag::CnfVisiblePkgname
    } else if same_text(name, "Cnf-Extra-Commands") {
        ControlTag::CnfExtraCommands
    } else if same_text(name, "Cnf-Ignore-Commands") {
        ControlTag::CnfIgnoreCommands
    } else if same_text(name, "Ubuntu-Oem-Kernel-Flavour") {
        ControlTag::UbuntuOemKernelFlavour
    } else if same_text(name, "Ruby-Versions") {
        ControlTag::RubyVersions
    } else if same_text(name, "Lua-Versions") {
        ControlTag::LuaVersions
    } else if same_text(name, "Python-Version") {
        ControlTag::PythonVersion
    } else if same_text(name, "Python3-Version") {
        ControlTag::Python3Version
    } else if same_text(name, "Python-Egg-Name") {
        ControlTag::PythonEggName
    } else if same_text(name, "X-Cargo-Built-Using") {
        ControlTag::XCargoBuiltUsing
    } else if same_text(name, "Ghc-Package") {
        ControlTag::GhcPackage
    } else if same_text(name, "Go-Import-Path") {
        ControlTag::GoImportPath
    } else if same_text(name, "Gstreamer-Elements") {
        ControlTag::GstreamerElements
    } else if same_text(name, "Gstreamer-Encoders") {
        ControlTag::GstreamerEncoders
    } else if same_text(name, "Gstreamer-Decoders") {
        ControlTag::GstreamerDecoders
    } else if same_text(name, "Gstreamer-Version") {
        ControlTag::GstreamerVersion
    } else if same_text(name, "Gstreamer-Uri-Sources") {
        ControlTag::GstreamerUriSources
    } else if same_text(name, "Gstreamer-Uri-Sinks") {
        ControlTag::GstreamerUriSinks
    } else if same_text(name, "Original-Vcs-Git") {
        ControlTag::OriginalVcsGit
    } else if same_text(name, "Efi-Vendor") {
        ControlTag::EfiVendor
    } else if same_text(name, "Original-Vcs-Browser") {
        ControlTag::OriginalVcsBrowser
    } else if same_text(name, "Postgresql-Catversion") {
        ControlTag::PostgresqlCatversion
    } else if same_text(name, "Xul-Appid") {
        ControlTag::XulAppid
    } else if same_text(name, "Npp-Applications") {
        ControlTag::NppApplications
    } else if same_text(name, "Npp-Description") {
        ControlTag::NppDescription
    } else if same_text(name, "Npp-File") {
        ControlTag::NppFile
    } else if same_text(name, "Npp-Mimetype") {
        ControlTag::NppMimetype
    } else {
        ControlTag::Unknown(name.to_string())
    }
}

/// Every known tag is recognized by its own field name, and the name of the
/// tag recognized is that field name again, so that reading back the name of
/// a known tag gives the same name.
pub proof fn lemma_field_name_round_trip(t: ControlTag)
    requires
        !(t is Unknown),
    ensures
        recognized(tag_name(t)) is Some,
        tag_name(recognized(tag_name(t))->0) == tag_name(t),
{
}

/// A name outside the vocabulary is kept as it was written.
pub proof fn lemma_unknown_name_kept(s: Seq<char>, t: ControlTag)
    requires
        recognized(s) is None,
        t matches ControlTag::Unknown(x) && x@ == s,
    ensures
        tag_name(t) == s,
{
}

} // verus!
