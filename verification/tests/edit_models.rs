use agent::tool::edit::{
    try_block_anchor_replace, try_exact_replace, try_line_trimmed_replace,
    try_whitespace_normalized_replace,
};

/// Every text over `alphabet` of up to `max` characters.
fn texts(alphabet: &[char], max: usize) -> Vec<String> {
    let mut all = vec![String::new()];
    let mut last = vec![String::new()];
    for _ in 0..max {
        let mut next = Vec::new();
        for t in &last {
            for c in alphabet {
                let mut longer = t.clone();
                longer.push(*c);
                next.push(longer);
            }
        }
        all.extend(next.iter().cloned());
        last = next;
    }
    all
}

/// Where each line of `content` stands in it.
fn line_spans(content: &str) -> Vec<(usize, usize)> {
    content
        .lines()
        .map(|line| {
            let start = line.as_ptr() as usize - content.as_ptr() as usize;
            (start, start + line.len())
        })
        .collect()
}

/// Replaces each window of lines where it stands. Windows name their first
/// line and the line after their last; one that overlaps a window replaced
/// before it is left as it is.
fn replace_windows(
    content: &str,
    windows: Vec<(usize, usize)>,
    new: &str,
    all: bool,
    backwards: bool,
) -> Option<String> {
    if windows.is_empty() || (!all && windows.len() > 1) {
        return None;
    }
    let lines = line_spans(content);
    let mut spans: Vec<(usize, usize)> =
        windows.iter().map(|w| (lines[w.0].0, lines[w.1 - 1].1)).collect();
    if backwards {
        spans.reverse();
    }
    let mut taken: Vec<(usize, usize)> = Vec::new();
    for span in spans {
        if taken.iter().all(|t| span.1 <= t.0 || t.1 <= span.0) {
            taken.push(span);
        }
    }
    taken.sort();
    let mut result = content.to_string();
    for span in taken.iter().rev() {
        result.replace_range(span.0..span.1, new);
    }
    Some(result)
}

fn exact_model(content: &str, old: &str, new: &str, all: bool) -> Option<String> {
    let first = content.find(old)?;
    if all {
        return Some(content.replace(old, new));
    }
    if content.rfind(old)? != first {
        return None;
    }
    Some(format!("{}{}{}", &content[..first], new, &content[first + old.len()..]))
}

fn line_trimmed_model(content: &str, old: &str, new: &str, all: bool) -> Option<String> {
    let lines: Vec<&str> = content.lines().collect();
    let wanted: Vec<&str> = old.lines().collect();
    if wanted.is_empty() || lines.len() < wanted.len() {
        return None;
    }
    let mut windows = Vec::new();
    for i in 0..=lines.len() - wanted.len() {
        if (0..wanted.len()).all(|j| lines[i + j].trim() == wanted[j].trim()) {
            windows.push((i, i + wanted.len()));
        }
    }
    replace_windows(content, windows, new, all, true)
}

fn whitespace_model(content: &str, old: &str, new: &str, all: bool) -> Option<String> {
    let normal = |s: &str| s.split_whitespace().collect::<Vec<_>>().join(" ");
    let windows = content
        .lines()
        .enumerate()
        .filter(|(_, line)| normal(line) == normal(old))
        .map(|(i, _)| (i, i + 1))
        .collect();
    replace_windows(content, windows, new, all, false)
}

fn block_anchor_model(content: &str, old: &str, new: &str, all: bool) -> Option<String> {
    let lines: Vec<&str> = content.lines().collect();
    let wanted: Vec<&str> = old.lines().collect();
    if wanted.len() < 3 {
        return None;
    }
    let first = wanted[0].trim();
    let last = wanted[wanted.len() - 1].trim();
    let mut windows = Vec::new();
    for i in 0..lines.len() {
        if lines[i].trim() == first {
            if let Some(j) = (i + 2..lines.len()).find(|j| lines[*j].trim() == last) {
                windows.push((i, j + 1));
            }
        }
    }
    replace_windows(content, windows, new, all, false)
}

#[test]
fn exact_matching_agrees_with_its_model_on_all_short_texts() {
    let contents = texts(&['a', 'b', '\n'], 6);
    let olds: Vec<String> = texts(&['a', 'b', '\n'], 3).into_iter().skip(1).collect();
    for content in &contents {
        for old in &olds {
            for all in [false, true] {
                assert_eq!(
                    try_exact_replace(content, old, "X", all),
                    exact_model(content, old, "X", all),
                    "{:?}",
                    (content, old, all)
                );
            }
        }
    }
}

#[test]
fn line_trimmed_matching_agrees_with_its_model_on_all_short_texts() {
    let contents = texts(&['a', ' ', '\n', '\r'], 5);
    let olds = texts(&['a', ' ', '\n', '\r'], 3);
    for content in &contents {
        for old in &olds {
            for all in [false, true] {
                assert_eq!(
                    try_line_trimmed_replace(content, old, "X", all),
                    line_trimmed_model(content, old, "X", all),
                    "{:?}",
                    (content, old, all)
                );
            }
        }
    }
}

#[test]
fn whitespace_matching_agrees_with_its_model_on_all_short_texts() {
    let contents = texts(&['a', ' ', '\n', '\r'], 5);
    let olds = texts(&['a', ' ', '\n', '\t'], 3);
    for content in &contents {
        for old in &olds {
            for all in [false, true] {
                assert_eq!(
                    try_whitespace_normalized_replace(content, old, "X", all),
                    whitespace_model(content, old, "X", all),
                    "{:?}",
                    (content, old, all)
                );
            }
        }
    }
}

#[test]
fn block_anchor_matching_agrees_with_its_model_on_all_short_texts() {
    let contents = texts(&['a', 'b', '\n'], 6);
    let olds: Vec<String> = texts(&['a', 'b', '\n', ' '], 5)
        .into_iter()
        .filter(|old| old.lines().count() >= 3)
        .collect();
    for content in &contents {
        for old in &olds {
            for all in [false, true] {
                assert_eq!(
                    try_block_anchor_replace(content, old, "X", all),
                    block_anchor_model(content, old, "X", all),
                    "{:?}",
                    (content, old, all)
                );
            }
        }
    }
}
