use factgen::tags::{tag_from_name, ControlTag};

#[test]
fn known_names_round_trip() {
    for name in [
        "Package",
        "Version",
        "Original-Maintainer",
        "Multi-Arch",
        "Pre-Depends",
        "X-Cargo-Built-Using",
        "Python3-Version",
        "Npp-Mimetype",
    ] {
        let tag = tag_from_name(name);
        assert!(!matches!(tag, ControlTag::Unknown(_)), "{}", name);
        assert_eq!(tag.field_name(), name);
        assert_eq!(tag_from_name(tag.field_name()).field_name(), tag.field_name());
    }
}

#[test]
fn known_names_give_their_variant() {
    assert!(matches!(tag_from_name("Depends"), ControlTag::Depends));
    assert!(matches!(tag_from_name("Multi-Arch"), ControlTag::MultiArch));
    assert!(matches!(tag_from_name("Built-Using"), ControlTag::BuiltUsing));
    assert_eq!(ControlTag::OriginalVcsBrowser.field_name(), "Original-Vcs-Browser");
}

#[test]
fn unknown_names_are_kept_verbatim() {
    for name in ["X-Custom-Field", "package", "", "Depends "] {
        match tag_from_name(name) {
            ControlTag::Unknown(s) => assert_eq!(s, name),
            other => panic!("{} gave {:?}", name, other),
        }
        assert_eq!(tag_from_name(name).field_name(), name);
    }
}

#[test]
fn every_known_tag_is_read_back_as_itself() {
    let all = vec![
        ControlTag::Package,
        ControlTag::Version,
        ControlTag::Source,
        ControlTag::Architecture,
        ControlTag::Maintainer,
        ControlTag::OriginalMaintainer,
        ControlTag::InstalledSize,
        ControlTag::Replaces,
        ControlTag::Section,
        ControlTag::MultiArch,
        ControlTag::Homepage,
        ControlTag::Description,
        ControlTag::Breaks,
        ControlTag::Depends,
        ControlTag::Suggests,
        ControlTag::Priority,
        ControlTag::BuiltUsing,
        ControlTag::Recommends,
        ControlTag::Conflicts,
        ControlTag::Provides,
        ControlTag::Enhances,
        ControlTag::BuildIds,
        ControlTag::PreDepends,
        ControlTag::Tag,
        ControlTag::Essential,
        ControlTag::Bugs,
        ControlTag::Task,
        ControlTag::Important,
        ControlTag::Modaliases,
        ControlTag::CnfVisiblePkgname,
        ControlTag::CnfExtraCommands,
        ControlTag::CnfIgnoreCommands,
        ControlTag::UbuntuOemKernelFlavour,
        ControlTag::RubyVersions,
        ControlTag::LuaVersions,
        ControlTag::PythonVersion,
        ControlTag::Python3Version,
        ControlTag::PythonEggName,
        ControlTag::XCargoBuiltUsing,
        ControlTag::GhcPackage,
        ControlTag::GoImportPath,
        ControlTag::GstreamerElements,
        ControlTag::GstreamerEncoders,
        ControlTag::GstreamerDecoders,
        ControlTag::GstreamerVersion,
        ControlTag::GstreamerUriSources,
        ControlTag::GstreamerUriSinks,
        ControlTag::OriginalVcsGit,
        ControlTag::EfiVendor,
        ControlTag::OriginalVcsBrowser,
        ControlTag::PostgresqlCatversion,
        ControlTag::XulAppid,
        ControlTag::NppApplications,
        ControlTag::NppDescription,
        ControlTag::NppFile,
        ControlTag::NppMimetype,
    ];
    assert_eq!(all.len(), 56);
    for tag in all {
        let back = tag_from_name(tag.field_name());
        assert_eq!(format!("{:?}", back), format!("{:?}", tag));
        assert_eq!(back.field_name(), tag.field_name());
    }
}
