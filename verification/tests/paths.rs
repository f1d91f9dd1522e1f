use chapr_endpoint::backend::{default_backend_kind, make_backend, parent_of, select_backend, Backend, IoFailure, IoKind};
use chapr_endpoint::canon::{
    canonicalize, canonicalize_in, confine, coordinated_roots, is_within_roots, set_coordinated_roots, RootCell,
};
use chapr_endpoint::create::{create_err, create_err_told, Blame};
use chapr_endpoint::mount::{
    default_mounts, MountName, MountStep, MountTable, NoMountTable, WinMountTable, ERROR_MORE_DATA,
    ERROR_NOT_CONNECTED, NO_ERROR,
};
use chapr_endpoint::pathgrammar::{
    grammar_for, insert_tag, is_absolute_local, join, posix_spell, restored_path, restored_path_at, sidecar_path, sidecar_path_at,
    win_spell, PathGrammar, PosixGrammar, WinGrammar,
};
use chapr_endpoint::proto::{BackendDescriptor, BackendKind, CanonicalPath, ChaprError, Principal};

fn path(s: &str) -> CanonicalPath {
    CanonicalPath::new_unchecked(s.to_string())
}

fn who(s: &str) -> Principal {
    Principal::new_unchecked(s.to_string())
}

struct FakeMounts {
    drive: &'static str,
    share: &'static str,
}

impl MountTable for FakeMounts {
    fn universal_name(&self, local_path: &str) -> Result<Option<String>, String> {
        match local_path.strip_prefix(self.drive) {
            Some(rest) => Ok(Some(format!("{}{}", self.share, rest))),
            None => Ok(None),
        }
    }
}

struct BrokenMounts;

impl MountTable for BrokenMounts {
    fn universal_name(&self, _local_path: &str) -> Result<Option<String>, String> {
        Err("the network provider is unavailable".into())
    }
}

fn c(s: &str) -> String {
    canonicalize_in(s, &WinGrammar, &NoMountTable, &[]).unwrap().0
}

// ---- canonical spelling ----

#[test]
fn forward_and_back_slashes_agree() {
    assert_eq!(c("//srv/share/dir/a.md"), c("\\\\srv\\share\\dir\\a.md"));
}

#[test]
fn trailing_separators_are_stripped() {
    assert_eq!(c("\\\\srv\\share\\dir\\"), "\\\\srv\\share\\dir");
    assert_eq!(c("\\\\srv\\share\\dir\\\\"), "\\\\srv\\share\\dir");
}

#[test]
fn repeated_separators_collapse_but_unc_prefix_survives() {
    assert_eq!(c("\\\\srv\\\\share\\a.md"), "\\\\srv\\share\\a.md");
    assert!(c("\\\\srv\\share\\a.md").starts_with("\\\\"));
}

#[test]
fn casefold_makes_casings_equal() {
    assert_eq!(c("\\\\SRV\\Share\\Report.MD"), c("\\\\srv\\share\\report.md"));
}

#[test]
fn nfc_makes_composed_and_decomposed_equal() {
    let composed = "\\\\srv\\share\\caf\u{e9}.md";
    let decomposed = "\\\\srv\\share\\caf\u{65}\u{301}.md";
    assert_eq!(c(composed), c(decomposed));
    assert_eq!(c(decomposed), composed);
}

#[test]
fn empty_or_blank_is_invalid() {
    for bad in ["", "   "] {
        assert!(matches!(
            canonicalize_in(bad, &WinGrammar, &NoMountTable, &[]),
            Err(ChaprError::InvalidPath { .. })
        ));
    }
}

#[test]
fn canonicalisation_is_idempotent() {
    let once = c("//SRV/Share//dir/a.md/");
    let twice = canonicalize_in(&once, &WinGrammar, &NoMountTable, &[]).unwrap().0;
    assert_eq!(once, twice);
}

#[test]
fn two_laptops_with_different_drive_letters_key_the_same_file() {
    let laptop_a = FakeMounts { drive: "Z:", share: "\\\\FILESRV\\AICollab" };
    let laptop_b = FakeMounts { drive: "P:", share: "\\\\FILESRV\\AICollab" };

    let from_a = canonicalize_in("Z:\\Tenders\\bid.docx", &WinGrammar, &laptop_a, &[]).unwrap();
    let from_b = canonicalize_in("P:\\Tenders\\bid.docx", &WinGrammar, &laptop_b, &[]).unwrap();
    assert_eq!(from_a, from_b);
    assert_eq!(from_a.as_str(), "\\\\filesrv\\aicollab\\tenders\\bid.docx");
}

#[test]
fn a_mapped_drive_agrees_with_the_unc_spelling_of_the_same_file() {
    let mounts = FakeMounts { drive: "Z:", share: "\\\\FILESRV\\AICollab" };
    let via_drive = canonicalize_in("Z:\\Tenders\\bid.docx", &WinGrammar, &mounts, &[]).unwrap();
    let via_unc =
        canonicalize_in("\\\\FILESRV\\AICollab\\Tenders\\bid.docx", &WinGrammar, &mounts, &[]).unwrap();
    assert_eq!(via_drive, via_unc);
}

#[test]
fn a_genuinely_local_path_is_left_alone() {
    let out = canonicalize_in("C:\\temp\\scratch.md", &WinGrammar, &NoMountTable, &[]).unwrap();
    assert_eq!(out.as_str(), "c:\\temp\\scratch.md");
}

#[test]
fn a_relative_path_is_refused_loudly() {
    for bad in ["bid.docx", "Tenders\\bid.docx", "Z:bid.docx"] {
        let err = canonicalize_in(bad, &WinGrammar, &NoMountTable, &[]).unwrap_err();
        match err {
            ChaprError::InvalidPath { reason, .. } => {
                assert!(reason.contains("not an absolute path"), "{bad} gave the wrong reason: {reason}")
            }
            other => panic!("{bad} gave the wrong error: {other:?}"),
        }
    }
}

#[test]
fn an_unresolvable_mapping_fails_rather_than_falling_back() {
    let err = canonicalize_in("Z:\\Tenders\\bid.docx", &WinGrammar, &BrokenMounts, &[]).unwrap_err();
    match err {
        ChaprError::InvalidPath { reason, .. } => {
            assert!(reason.contains("cannot resolve"), "wrong reason: {reason}");
            assert!(reason.starts_with("cannot resolve \"Z:\\\\Tenders\\\\bid.docx\" to a share: the network"));
        }
        other => panic!("wrong error: {other:?}"),
    }
}

#[test]
fn posix_has_nothing_to_resolve() {
    let out = canonicalize_in("/srv/share/a.md", &PosixGrammar, &NoMountTable, &[]).unwrap();
    assert_eq!(out.as_str(), "/srv/share/a.md");
}

#[test]
fn a_path_without_a_body_is_refused() {
    for bad in ["\\\\", "//", "\\\\\\"] {
        match canonicalize_in(bad, &WinGrammar, &NoMountTable, &[]) {
            Err(ChaprError::InvalidPath { reason, .. }) => {
                assert_eq!(reason, "path has no body after normalisation")
            }
            other => panic!("{bad} gave {other:?}"),
        }
    }
    assert_eq!(PosixGrammar.normalize("///").unwrap(), "/");
    assert_eq!(WinGrammar.normalize("").unwrap_err(), "path has no body after normalisation");
}

// ---- confinement ----

#[test]
fn no_configured_root_means_no_confinement() {
    assert!(is_within_roots("\\\\any\\where\\at\\all", &[], '\\'));
}

#[test]
fn confinement_accepts_the_root_and_its_children() {
    let roots = vec![path("\\\\filesrv\\aicollab")];
    assert!(is_within_roots("\\\\filesrv\\aicollab", &roots, '\\'));
    assert!(is_within_roots("\\\\filesrv\\aicollab\\tenders\\a.md", &roots, '\\'));
}

#[test]
fn confinement_is_not_a_bare_prefix_match() {
    let roots = vec![path("\\\\filesrv\\aicollab")];
    assert!(!is_within_roots("\\\\filesrv\\aicollab2\\secret.md", &roots, '\\'));
    assert!(!is_within_roots("\\\\otherhost\\c$\\windows", &roots, '\\'));
}

#[test]
fn confinement_accepts_any_of_several_roots() {
    let roots = vec![path("\\\\filesrv\\tenders"), path("\\\\filesrv\\proposals")];
    assert!(is_within_roots("\\\\filesrv\\proposals\\q3.docx", &roots, '\\'));
    assert!(!is_within_roots("\\\\filesrv\\payroll\\salaries.xlsx", &roots, '\\'));
}

#[test]
fn canonicalize_refuses_a_path_outside_the_root() {
    let roots = vec![path("\\\\filesrv\\aicollab")];
    let err = canonicalize_in("\\\\otherhost\\finance\\salaries.xlsx", &WinGrammar, &NoMountTable, &roots).unwrap_err();
    match err {
        ChaprError::InvalidPath { reason, .. } => {
            assert!(reason.contains("outside"), "wrong reason: {reason}");
            assert_eq!(
                reason,
                "resolves to \"\\\\\\\\otherhost\\\\finance\\\\salaries.xlsx\", which is outside this endpoint's \
                 coordinated root(s): \\\\filesrv\\aicollab"
            );
        }
        other => panic!("wrong error: {other:?}"),
    }
}

#[test]
fn a_mapped_drive_is_confined_by_the_share_it_resolves_to() {
    let roots = vec![path("\\\\filesrv\\aicollab")];
    let inside = FakeMounts { drive: "Z:", share: "\\\\FILESRV\\AICollab" };
    let outside = FakeMounts { drive: "Z:", share: "\\\\FILESRV\\Payroll" };

    assert!(canonicalize_in("Z:\\a.md", &WinGrammar, &inside, &roots).is_ok());
    assert!(canonicalize_in("Z:\\a.md", &WinGrammar, &outside, &roots).is_err());
}

#[test]
fn the_roots_are_fixed_once() {
    let mut cell = RootCell::new();
    assert!(coordinated_roots(&cell).is_empty());
    assert!(canonicalize("/anywhere/at/all", &PosixGrammar, &default_mounts(), &cell).is_ok());
    assert_eq!(set_coordinated_roots(&mut cell, vec![path("/srv")]), Ok(()));
    assert_eq!(set_coordinated_roots(&mut cell, vec![path("/other")]), Err(vec![path("/other")]));
    assert_eq!(coordinated_roots(&cell), &[path("/srv")]);
    assert_eq!(canonicalize("/srv//a.md", &PosixGrammar, &default_mounts(), &cell).unwrap().as_str(), "/srv/a.md");
    assert!(canonicalize("/srv2/a.md", &PosixGrammar, &default_mounts(), &cell).is_err());
}

// ---- grammars ----

fn locks(p: &str) -> Vec<String> {
    WinGrammar.human_lock_paths(&path(p)).iter().map(|c| c.as_str().to_string()).collect()
}

#[test]
fn win_office_lock_covers_the_prepended_excel_form() {
    assert!(locks("\\\\srv\\share\\dir\\report.xlsx").contains(&"\\\\srv\\share\\dir\\~$report.xlsx".to_string()));
}

#[test]
fn win_office_lock_covers_the_word_minus_two_form() {
    assert!(locks("\\\\srv\\share\\dir\\Quarterly.docx").contains(&"\\\\srv\\share\\dir\\~$arterly.docx".to_string()));
}

#[test]
fn win_office_lock_slices_by_char_not_byte() {
    let got = locks("\\\\srv\\share\\Årsrapport.docx");
    assert!(got.contains(&"\\\\srv\\share\\~$srapport.docx".to_string()), "{got:?}");
}

#[test]
fn win_office_lock_skips_the_word_form_for_very_short_names() {
    assert_eq!(locks("\\\\srv\\share\\ab"), vec!["\\\\srv\\share\\~$ab".to_string()]);
}

#[test]
fn posix_has_no_human_lock() {
    assert!(PosixGrammar.human_lock_paths(&path("/mnt/share/report.xlsx")).is_empty());
}

#[test]
fn win_sidecar_preserves_extension_and_sanitises_user() {
    let p = path("\\\\srv\\share\\q3.xlsx");
    let s = sidecar_path(&WinGrammar, &p, &who("CONTOSO\\jsmith"));
    let s = s.as_str();
    assert!(s.starts_with("\\\\srv\\share\\q3.conflict-contoso_jsmith-"));
    assert!(s.ends_with(".xlsx"));
    assert!(!s.contains("CONTOSO\\jsmith"));
    assert_eq!(s, WinGrammar.normalize(s).unwrap(), "sidecar must be canonical");
}

#[test]
fn sidecars_in_the_same_second_do_not_collide() {
    let p = path("\\\\srv\\share\\q3.xlsx");
    let a = sidecar_path(&WinGrammar, &p, &who("CONTOSO\\jsmith"));
    let b = sidecar_path(&WinGrammar, &p, &who("CONTOSO\\jsmith"));
    assert_ne!(a.as_str(), b.as_str());
    assert!(a.as_str().ends_with(".xlsx") && b.as_str().ends_with(".xlsx"));
}

#[test]
fn restored_copies_in_the_same_second_do_not_collide() {
    let p = path("/mnt/share/q3.xlsx");
    let a = restored_path(&PosixGrammar, &p);
    let b = restored_path(&PosixGrammar, &p);
    assert_ne!(a.as_str(), b.as_str());
}

#[test]
fn posix_sidecar_uses_forward_slash_grammar() {
    let p = path("/mnt/share/q3.xlsx");
    let s = sidecar_path(&PosixGrammar, &p, &who("jsmith"));
    let s = s.as_str();
    assert!(s.starts_with("/mnt/share/q3.conflict-jsmith-"));
    assert!(s.ends_with(".xlsx"));
}

#[test]
fn win_restored_preserves_extension() {
    let p = path("\\\\srv\\share\\q3.xlsx");
    let r = restored_path(&WinGrammar, &p);
    assert!(r.as_str().starts_with("\\\\srv\\share\\q3.restored-"));
    assert!(r.as_str().ends_with(".xlsx"));
}

#[test]
fn derived_names_are_exact_for_a_given_moment() {
    assert_eq!(
        sidecar_path_at(&WinGrammar, &path("\\\\srv\\a.b\\q3"), &who("J. Smith"), "20260803120000", "0123abcd").as_str(),
        "\\\\srv\\a.b\\q3.conflict-j__smith-20260803120000-0123abcd"
    );
    assert_eq!(
        restored_path_at(&PosixGrammar, &path("/mnt/q3.tar.gz"), "20260803120000", "0123abcd").as_str(),
        "/mnt/q3.tar.restored-20260803120000-0123abcd.gz"
    );
    assert_eq!(insert_tag("noext", "t", '/'), "noext.t");
    let id = restored_path(&PosixGrammar, &path("/q3")).0;
    let (_, tail) = id.rsplit_once('-').unwrap();
    assert_eq!(tail.len(), 8);
    assert!(tail.chars().all(|c| c.is_ascii_hexdigit() && !c.is_ascii_uppercase()));
}

#[test]
fn win_normalize_casefolds_and_preserves_unc() {
    assert_eq!(WinGrammar.normalize("//SRV/Share//Dir/A.MD/").unwrap(), "\\\\srv\\share\\dir\\a.md");
}

#[test]
fn posix_normalize_is_case_sensitive_and_collapses() {
    assert_eq!(PosixGrammar.normalize("/mnt//share/Dir/A.md/").unwrap(), "/mnt/share/Dir/A.md");
    assert_ne!(
        PosixGrammar.normalize("/mnt/Report.md").unwrap(),
        PosixGrammar.normalize("/mnt/report.md").unwrap()
    );
}

#[test]
fn posix_does_not_translate_backslash() {
    assert_eq!(PosixGrammar.normalize("/mnt/od\\d.md").unwrap(), "/mnt/od\\d.md");
}

#[test]
fn grammar_for_maps_kinds() {
    assert_eq!(grammar_for(BackendKind::Smb).sep(), '\\');
    assert_eq!(grammar_for(BackendKind::Posix).sep(), '/');
}

#[test]
fn join_uses_the_grammar_separator() {
    assert_eq!(join(&WinGrammar, "\\\\srv\\share", "a.md"), "\\\\srv\\share\\a.md");
    assert_eq!(join(&PosixGrammar, "/mnt/share", "a.md"), "/mnt/share/a.md");
    assert_eq!(join(&PosixGrammar, "/", "a.md"), "/a.md");
}

#[test]
fn local_paths_have_a_letter_a_colon_and_a_separator() {
    assert!(is_absolute_local("c:\\x") && is_absolute_local("Z:\\"));
    assert!(!is_absolute_local("c:x") && !is_absolute_local("1:\\x") && !is_absolute_local("c:"));
}

// ---- mounts ----

#[test]
fn no_mount_table_reports_everything_local() {
    assert_eq!(NoMountTable.universal_name("Z:\\a\\b.md").unwrap(), None);
    assert_eq!(default_mounts().universal_name("Z:\\a\\b.md").unwrap(), None);
}

#[test]
fn the_real_table_reports_a_local_path_as_local() {
    match WinMountTable::settle(0, ERROR_NOT_CONNECTED, MountName::Missing) {
        MountStep::Settled(r) => assert_eq!(r.unwrap(), None),
        MountStep::AskAgain => panic!("a local path needs no second call"),
    }
}

#[test]
fn the_real_table_asks_again_once() {
    assert!(matches!(WinMountTable::settle(0, ERROR_MORE_DATA, MountName::Missing), MountStep::AskAgain));
    match WinMountTable::settle(1, ERROR_MORE_DATA, MountName::Missing) {
        MountStep::Settled(Err(e)) => assert_eq!(e, "WNetGetUniversalNameW failed with Win32 error 234"),
        _ => panic!("the second answer is final"),
    }
    match WinMountTable::settle(0, NO_ERROR, MountName::Unc("\\\\srv\\share\\a".to_string())) {
        MountStep::Settled(Ok(Some(unc))) => assert_eq!(unc, "\\\\srv\\share\\a"),
        _ => panic!("a name was found"),
    }
    match WinMountTable::settle(0, NO_ERROR, MountName::Missing) {
        MountStep::Settled(Err(e)) => assert_eq!(e, "WNetGetUniversalNameW returned no name"),
        _ => panic!("no name was found"),
    }
    match WinMountTable::settle(0, NO_ERROR, MountName::Undecodable("lone surrogate".to_string())) {
        MountStep::Settled(Err(e)) => assert_eq!(e, "universal name is not valid UTF-16: lone surrogate"),
        _ => panic!("the name is unusable"),
    }
}

#[test]
fn a_fake_table_maps_only_its_own_drive() {
    let m = FakeMounts { drive: "Z:", share: "\\\\srv\\share" };
    assert_eq!(
        m.universal_name("Z:\\Tenders\\bid.docx").unwrap(),
        Some("\\\\srv\\share\\Tenders\\bid.docx".to_string())
    );
    assert_eq!(m.universal_name("P:\\Tenders\\bid.docx").unwrap(), None);
}

// ---- backends ----

#[test]
fn select_backend_uses_announcement_else_default() {
    let d = BackendDescriptor { kind: BackendKind::Smb };
    assert_eq!(select_backend(Some(&d)), BackendKind::Smb);
    assert_eq!(select_backend(None), BackendKind::default());
    let p = BackendDescriptor { kind: BackendKind::Posix };
    assert_eq!(select_backend(Some(&p)), BackendKind::Posix);
}

#[test]
fn backends_are_made_where_they_can_be_driven() {
    assert_eq!(default_backend_kind(true), BackendKind::Smb);
    assert_eq!(default_backend_kind(false), BackendKind::Posix);
    assert_eq!(
        make_backend(BackendKind::Smb, false).unwrap_err(),
        "the SMB backend is only available on Windows builds"
    );
    match make_backend(BackendKind::Smb, true).unwrap() {
        Backend::Smb(b) => assert!(b.capabilities().mandatory_lock && !b.capabilities().atomic_writes),
        Backend::Posix(_) => panic!("asked for the other"),
    }
    match make_backend(BackendKind::Posix, false).unwrap() {
        Backend::Posix(b) => assert!(!b.capabilities().mandatory_lock && b.kind() == BackendKind::Posix),
        Backend::Smb(_) => panic!("asked for the other"),
    }
}

fn not_found() -> IoFailure {
    IoFailure { kind: IoKind::NotFound, os_code: Some(2), message: "No such file or directory (os error 2)".to_string() }
}

#[test]
fn a_create_into_a_missing_directory_names_the_directory() {
    let p = path("/tmp/share/nosuchdir/f.txt");
    let err = match create_err(BackendKind::Posix, &p, not_found()) {
        Blame::Ask { parent, failure } => create_err_told(&p, parent, failure, false),
        Blame::Plain(e) => e,
    };
    match err {
        ChaprError::ParentMissing { parent, path: q } => {
            assert!(parent.as_str().ends_with("nosuchdir"), "{parent:?}");
            assert_eq!(q, p);
            let msg = ChaprError::ParentMissing { parent, path: q }.message();
            assert!(msg.contains("chapr_mkdir"), "{msg}");
        }
        other => panic!("expected ParentMissing, got {other:?}"),
    }
}

#[test]
fn an_existing_parent_leaves_not_found_alone() {
    let p = path("/tmp/share/f.txt");
    let err = match create_err(BackendKind::Posix, &p, not_found()) {
        Blame::Ask { parent, failure } => create_err_told(&p, parent, failure, true),
        Blame::Plain(e) => e,
    };
    assert!(matches!(err, ChaprError::NotFound { .. }), "{err:?}");
}

#[test]
fn a_share_root_has_no_parent() {
    let root = path("\\\\srv\\share");
    assert!(parent_of(BackendKind::Smb, &root).is_none());
    let file = path("\\\\srv\\share\\f.md");
    assert_eq!(
        parent_of(BackendKind::Smb, &file).map(|p| p.as_str().to_string()),
        Some("\\\\srv\\share".to_string())
    );
    assert_eq!(parent_of(BackendKind::Posix, &path("/a")), Some(path("/")));
    assert_eq!(parent_of(BackendKind::Posix, &path("/")), None);
    assert_eq!(parent_of(BackendKind::Posix, &path("a")), None);
    assert_eq!(parent_of(BackendKind::Posix, &path("/a/b")), Some(path("/a")));
}

#[test]
fn a_folded_path_has_one_spelling() {
    assert_eq!(win_spell("\\\\srv\\\\share\\a\\").unwrap(), "\\\\srv\\share\\a");
    assert_eq!(win_spell("c:\\a\\\\b").unwrap(), "c:\\a\\b");
    assert_eq!(win_spell("\\\\\\\\").unwrap_err(), "path has no body after normalisation");
    assert_eq!(win_spell("").unwrap_err(), "path has no body after normalisation");
    assert_eq!(posix_spell("//srv//a/").unwrap(), "/srv/a");
    assert_eq!(posix_spell("///").unwrap(), "/");
    assert_eq!(posix_spell("a//b").unwrap(), "a/b");
    assert_eq!(posix_spell("").unwrap_err(), "path has no body after normalisation");
}

#[test]
fn a_spelled_path_is_confined() {
    let roots = [path("/srv/a")];
    assert_eq!(confine("raw", Ok("/srv/a/b".to_string()), &roots, '/').unwrap(), path("/srv/a/b"));
    let refused = |normal: Result<String, String>| match confine("raw", normal, &roots, '/') {
        Err(ChaprError::InvalidPath { raw, reason }) => {
            assert_eq!(raw, "raw");
            reason
        }
        other => panic!("expected a refusal, got {other:?}"),
    };
    assert_eq!(
        refused(Ok("/srv/ab".to_string())),
        "resolves to \"/srv/ab\", which is outside this endpoint's coordinated root(s): /srv/a"
    );
    assert_eq!(refused(Ok(String::new())), "path has no body after normalisation");
    assert_eq!(refused(Err("why".to_string())), "why");
}

#[test]
fn everything_is_within_the_root_of_all() {
    let roots = [path("/")];
    assert!(is_within_roots("/srv/a.md", &roots, '/'));
    assert!(is_within_roots("/", &roots, '/'));
    assert!(!is_within_roots("srv/a.md", &roots, '/'));
    assert_eq!(canonicalize_in("//srv/a.md", &PosixGrammar, &NoMountTable, &roots).unwrap(), path("/srv/a.md"));
}

#[test]
fn only_two_leading_separators_survive() {
    for raw in ["///srv/share/a.md", "\\\\\\\\srv\\share\\a.md", "\\\\srv\\share\\a.md", "//SRV//Share/a.md/"] {
        assert_eq!(
            canonicalize_in(raw, &WinGrammar, &NoMountTable, &[]).unwrap().as_str(),
            "\\\\srv\\share\\a.md",
            "{raw}"
        );
    }
}

#[test]
fn two_laptops_and_the_share_itself_agree() {
    let here = FakeMounts { drive: "Z:", share: "\\\\FILESRV\\AICollab" };
    let there = FakeMounts { drive: "P:", share: "\\\\FILESRV\\AICollab" };
    let key = path("\\\\filesrv\\aicollab\\q3.docx");
    assert_eq!(canonicalize_in("Z:\\Q3.docx", &WinGrammar, &here, &[]).unwrap(), key);
    assert_eq!(canonicalize_in("P:/q3.docx", &WinGrammar, &there, &[]).unwrap(), key);
    assert_eq!(canonicalize_in("\\\\FILESRV\\AICollab\\Q3.docx", &WinGrammar, &NoMountTable, &[]).unwrap(), key);
    let mut cell = RootCell::new();
    set_coordinated_roots(&mut cell, vec![path("\\\\filesrv\\aicollab")]).unwrap();
    assert_eq!(canonicalize("Z:\\Q3.docx", &WinGrammar, &here, &cell).unwrap(), key);
    assert!(canonicalize("Z:\\Q3.docx", &WinGrammar, &NoMountTable, &cell).is_err());
}
