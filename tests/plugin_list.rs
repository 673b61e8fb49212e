use plugin_core::plugin_paths;

fn paths(text: &str) -> Vec<String> {
    let chars: Vec<char> = text.chars().collect();
    plugin_paths(&chars).into_iter().map(|p| p.into_iter().collect()).collect()
}

#[test]
fn one_path_per_line_trimmed() {
    assert_eq!(
        paths("  libwindow.so \n\tlibaudio.so\r\n"),
        vec!["libwindow.so".to_string(), "libaudio.so".to_string()]
    );
}

#[test]
fn blank_lines_are_skipped() {
    assert_eq!(paths("\n   \na.so\n\n\t\r\nb.so"), vec!["a.so".to_string(), "b.so".to_string()]);
}

#[test]
fn empty_list_has_no_entries() {
    assert!(paths("").is_empty());
    assert!(paths(" \n \r\n").is_empty());
}

#[test]
fn inner_spaces_are_kept() {
    assert_eq!(paths("my plugins/a b.so"), vec!["my plugins/a b.so".to_string()]);
}
