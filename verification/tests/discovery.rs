use lld_rx::discovery::{
    clean_cxxflags, is_blacklisted, is_debug_mode, library_files, link_libraries,
    shared_library_name, split_and_keep, split_pieces, static_library_name, system_flags,
    system_libcpp, system_library_name, target_dylib_extension, toolchain_version, Keep,
};

fn strings(items: &[&str]) -> Vec<String> {
    items.iter().map(|s| s.to_string()).collect()
}

#[test]
fn pieces_keep_empty_runs() {
    assert_eq!(split_pieces("a  b\n"), strings(&["a", "", "b", ""]));
}

#[test]
fn pieces_of_empty_text_is_one_empty_piece() {
    assert_eq!(split_pieces(""), strings(&[""]));
}

#[test]
fn pieces_agree_with_the_standard_split() {
    let text = " -lrt -ldl\n-lm  /usr/lib/libz.so\n";
    let expected: Vec<String> = text.split(&[' ', '\n'][..]).map(|s| s.to_string()).collect();
    assert_eq!(split_pieces(text), expected);
}

#[test]
fn pieces_do_not_cut_at_tabs() {
    assert_eq!(split_pieces("a\tb c"), strings(&["a\tb", "c"]));
}

#[test]
fn library_files_drop_empty_pieces() {
    assert_eq!(
        library_files("libLLVMCore.a libLLVMSupport.a\n"),
        strings(&["libLLVMCore.a", "libLLVMSupport.a"])
    );
    assert_eq!(library_files(" \n \n"), Vec::<String>::new());
    assert_eq!(library_files(""), Vec::<String>::new());
}

#[test]
fn system_flags_drop_absolute_paths() {
    assert_eq!(
        system_flags("-lrt /usr/lib/libz.so -ldl\nlibxml2.so\n"),
        strings(&["-lrt", "-ldl", "libxml2.so"])
    );
}

#[test]
fn keep_rules_differ_only_in_what_they_drop() {
    let text = "-Wall  /x -O2";
    assert_eq!(split_and_keep(Keep::Words, text), strings(&["-Wall", "/x", "-O2"]));
    assert_eq!(split_and_keep(Keep::RelativeWords, text), strings(&["-Wall", "-O2"]));
    assert_eq!(split_and_keep(Keep::NoWarnings, text), strings(&["", "/x", "-O2"]));
}

#[test]
fn cxxflags_lose_warning_switches() {
    assert_eq!(
        clean_cxxflags("-I/usr/include -std=c++14 -Wall -Wno-unused -fno-exceptions"),
        "-I/usr/include -std=c++14 -fno-exceptions"
    );
}

#[test]
fn cxxflags_keep_empty_pieces_as_spaces() {
    assert_eq!(clean_cxxflags("-O2  -g\n"), "-O2  -g ");
    assert_eq!(clean_cxxflags(""), "");
    assert_eq!(clean_cxxflags("-Wall"), "");
    assert_eq!(clean_cxxflags("-Wall -O2"), "-O2");
}

#[test]
fn cxxflags_agree_with_the_standard_split_and_join() {
    let text = "-I/opt/llvm/include  -W -Wextra -DNDEBUG\n-D_GNU_SOURCE\n";
    let expected = text
        .split(&[' ', '\n'][..])
        .filter(|word| !word.starts_with("-W"))
        .collect::<Vec<_>>()
        .join(" ");
    assert_eq!(clean_cxxflags(text), expected);
}

#[test]
fn static_library_name_strips_lib_and_a() {
    assert_eq!(static_library_name("libLLVMCore.a", false), Some("LLVMCore".to_string()));
    assert_eq!(static_library_name("lib.a", false), Some(String::new()));
}

#[test]
fn static_library_name_needs_both_ends() {
    assert_eq!(static_library_name("LLVMCore.a", false), None);
    assert_eq!(static_library_name("libLLVMCore.so", false), None);
    assert_eq!(static_library_name("LLVMCore.lib", false), None);
    assert_eq!(static_library_name("", false), None);
    assert_eq!(static_library_name("lib", false), None);
    assert_eq!(static_library_name(".a", false), None);
}

#[test]
fn static_library_name_on_msvc_strips_lib_suffix() {
    assert_eq!(static_library_name("LLVMCore.lib", true), Some("LLVMCore".to_string()));
    assert_eq!(static_library_name(".lib", true), Some(String::new()));
    assert_eq!(static_library_name("libLLVMCore.a", true), None);
    assert_eq!(static_library_name("lib", true), None);
}

#[test]
fn static_library_name_counts_characters_not_bytes() {
    assert_eq!(static_library_name("libé.a", false), Some("é".to_string()));
    assert_eq!(static_library_name("é.lib", true), Some("é".to_string()));
}

#[test]
fn link_libraries_names_every_file_in_order() {
    assert_eq!(
        link_libraries("libLLVMCore.a libLLVMLineEditor.a\nlibLLVMSupport.a\n", false),
        Some(strings(&["LLVMCore", "LLVMLineEditor", "LLVMSupport"]))
    );
    assert_eq!(
        link_libraries("LLVMCore.lib LLVMSupport.lib", true),
        Some(strings(&["LLVMCore", "LLVMSupport"]))
    );
}

#[test]
fn link_libraries_fails_on_one_foreign_file() {
    assert_eq!(link_libraries("libLLVMCore.a LLVMSupport.lib", false), None);
    assert_eq!(link_libraries("libLLVMCore.a LLVMSupport.lib", true), None);
}

#[test]
fn link_libraries_of_blank_output_is_empty() {
    assert_eq!(link_libraries("\n", false), Some(Vec::new()));
}

#[test]
fn system_library_name_strips_dash_l() {
    assert_eq!(system_library_name("-lrt", false, false), Some("rt".to_string()));
    assert_eq!(system_library_name("-l", false, false), Some(String::new()));
    assert_eq!(system_library_name("-lz", false, true), Some("z".to_string()));
}

#[test]
fn system_library_name_reads_macos_stubs() {
    assert_eq!(system_library_name("-llibxml2.tbd", false, true), Some("xml2".to_string()));
    assert_eq!(system_library_name("-llib.tbd", false, true), Some(String::new()));
    assert_eq!(
        system_library_name("-llibxml2.tbd", false, false),
        Some("libxml2.tbd".to_string())
    );
    assert_eq!(system_library_name("-lxml2.tbd", false, true), Some("xml2.tbd".to_string()));
    assert_eq!(system_library_name("-llibxml2", false, true), Some("libxml2".to_string()));
}

#[test]
fn system_library_name_on_msvc_strips_lib_suffix() {
    assert_eq!(system_library_name("psapi.lib", true, false), Some("psapi".to_string()));
    assert_eq!(system_library_name("-lrt", true, false), None);
    assert_eq!(system_library_name("-lrt.lib", true, true), Some("-lrt".to_string()));
}

#[test]
fn system_library_name_leaves_paths_alone() {
    assert_eq!(system_library_name("libz.so", false, false), None);
    assert_eq!(system_library_name("lib/libz.so", false, true), None);
    assert_eq!(system_library_name("", false, false), None);
}

#[test]
fn dylib_extension_follows_the_target() {
    assert_eq!(target_dylib_extension(true), ".dylib");
    assert_eq!(target_dylib_extension(false), ".so");
}

#[test]
fn shared_library_name_cuts_at_the_last_extension() {
    assert_eq!(shared_library_name("libz.so", false), Some("z".to_string()));
    assert_eq!(shared_library_name("libz.so.1.2", false), Some("z".to_string()));
    assert_eq!(shared_library_name("libfoo.so.so", false), Some("foo.so".to_string()));
    assert_eq!(shared_library_name("libxml2.dylib", true), Some("xml2".to_string()));
}

#[test]
fn shared_library_name_strips_every_leading_lib() {
    assert_eq!(shared_library_name("liblibz.so", false), Some("z".to_string()));
    assert_eq!(shared_library_name("lib.so", false), Some(String::new()));
    assert_eq!(shared_library_name("z.so", false), Some("z".to_string()));
    assert_eq!(shared_library_name("liz.so", false), Some("liz".to_string()));
}

#[test]
fn shared_library_name_needs_the_extension() {
    assert_eq!(shared_library_name("libz.a", false), None);
    assert_eq!(shared_library_name("libz.so", true), None);
    assert_eq!(shared_library_name("libz.dylib", false), None);
    assert_eq!(shared_library_name("", false), None);
}

#[test]
fn shared_library_name_agrees_with_the_standard_functions() {
    for file in ["libz.so", "liblibffi.so.8", "lib.so", "a.so.b.so.c", ".so", "libé.so"] {
        let expected = file.rsplit_once(".so").map(|p| p.0.trim_start_matches("lib").to_string());
        assert_eq!(shared_library_name(file, false), expected);
    }
}

#[test]
fn libcpp_follows_the_target() {
    assert_eq!(system_libcpp(true, false, false), None);
    assert_eq!(system_libcpp(true, true, true), None);
    assert_eq!(system_libcpp(false, true, false), Some("c++"));
    assert_eq!(system_libcpp(false, false, true), Some("c++"));
    assert_eq!(system_libcpp(false, false, false), Some("stdc++"));
}

#[test]
fn line_editor_is_blacklisted() {
    assert!(is_blacklisted("LLVMLineEditor"));
    assert!(is_blacklisted("libLLVMLineEditor-14"));
    assert!(!is_blacklisted("LLVMLineEdit"));
    assert!(!is_blacklisted("LLVMCore"));
    assert!(!is_blacklisted(""));
}

#[test]
fn debug_mode_is_found_anywhere_in_the_report() {
    assert!(is_debug_mode("Debug\n"));
    assert!(is_debug_mode("RelWithDebInfo+Debug"));
    assert!(!is_debug_mode("Release\n"));
    assert!(!is_debug_mode("debug"));
    assert!(!is_debug_mode(""));
}

#[test]
fn toolchain_version_splits_tens_and_units() {
    assert_eq!(toolchain_version(140), (14, 0));
    assert_eq!(toolchain_version(151), (15, 1));
    assert_eq!(toolchain_version(7), (0, 7));
    assert_eq!(toolchain_version(0), (0, 0));
    assert_eq!(toolchain_version(u64::MAX), (u64::MAX / 10, 5));
}

#[test]
fn no_piece_holds_a_separator() {
    let text = "  -lrt\n\n-ldl -lm \n";
    let pieces = split_pieces(text);
    assert_eq!(pieces.len(), 1 + text.chars().filter(|c| *c == ' ' || *c == '\n').count());
    for piece in &pieces {
        assert!(!piece.contains(' ') && !piece.contains('\n'));
    }
    assert_eq!(pieces, strings(&["", "", "-lrt", "", "-ldl", "-lm", "", ""]));
}
