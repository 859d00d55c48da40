use k1f_bot::uuid::{render, render_uuids};

fn is_v4(id: &str) -> bool {
    let b: Vec<char> = id.chars().collect();
    b.len() == 36
        && b.iter().enumerate().all(|(i, c)| {
            if [8, 13, 18, 23].contains(&i) {
                *c == '-'
            } else {
                c.is_ascii_hexdigit() && !c.is_ascii_uppercase()
            }
        })
        && b[14] == '4'
        && "89ab".contains(b[19])
}

#[test]
fn render_counts_and_format() {
    for (qty, expected) in [(0u8, 1usize), (1, 1), (3, 3), (50, 50), (51, 50), (255, 50)] {
        let out = render(qty);
        let lines: Vec<&str> = out.split('\n').collect();
        assert_eq!(lines.len(), expected);
        for (i, line) in lines.iter().enumerate() {
            let prefix = format!("{}\\.  `", i + 1);
            assert!(line.starts_with(&prefix), "{line}");
            assert!(line.ends_with('`'));
            let id = &line[prefix.len()..line.len() - 1];
            assert!(is_v4(id), "{id}");
        }
    }
}

#[test]
fn render_uuids_exact_text() {
    let ids = vec!["a".to_string(), "b".to_string()];
    assert_eq!(render_uuids(&ids), "1\\.  `a`\n2\\.  `b`");
    assert_eq!(render_uuids(&[]), "");
}
