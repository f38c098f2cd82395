use zkvm_core::gnark::{indent, mask, mask_line, space};

fn lines(xs: &[&str]) -> Vec<String> {
    xs.iter().map(|x| x.to_string()).collect()
}

#[test]
fn a_block_is_indented_by_one_tab() {
    assert_eq!(indent(lines(&["a := 1", "", "\tb"])), lines(&["\ta := 1", "\t", "\t\tb"]));
    assert_eq!(indent(Vec::new()), Vec::<String>::new());
}

#[test]
fn assignments_are_masked_by_the_kind_of_their_destination() {
    let masked = mask("cond", &lines(&["var1 = x + y", "felt2 = a", "ext3  = b * c  "]));
    assert_eq!(
        masked,
        lines(&[
            "var1 = api.Select(cond,  x + y, var1",
            "felt2 = fieldChip.Select(cond,  a, felt2)",
            "ext3 = fieldChip.SelectExtension(cond,  b * c, ext3",
        ])
    );
}

#[test]
fn the_expression_ends_at_the_second_sign() {
    assert_eq!(
        mask_line("c", "var0 = a == b"),
        Some("var0 = api.Select(c,  a, var0".to_string())
    );
    assert_eq!(mask_line("c", "var0="), Some("var0 = api.Select(c, , var0".to_string()));
    // A variable is looked for first, then a field element.
    assert_eq!(
        mask_line("c", "feltvar = 1"),
        Some("feltvar = api.Select(c,  1, feltvar".to_string())
    );
}

#[test]
fn a_line_that_is_no_assignment_is_not_masked() {
    assert_eq!(mask_line("c", "var0"), None);
    assert_eq!(mask_line("c", ""), None);
    assert_eq!(mask_line("c", "x = 1"), None);
    assert_eq!(mask_line("c", "= var"), None);
}

/// The same with the methods of the standard library.
fn by_the_library(cond: &str, line: &str) -> Option<String> {
    let parts = line.split('=').collect::<Vec<_>>();
    if parts.len() < 2 {
        return None;
    }
    let dst = parts[0].trim_end();
    let expr = parts[1].trim_end();
    if dst.contains("var") {
        Some(format!("{dst} = api.Select({cond}, {expr}, {dst}"))
    } else if dst.contains("felt") {
        Some(format!("{dst} = fieldChip.Select({cond}, {expr}, {dst})"))
    } else if dst.contains("ext") {
        Some(format!("{dst} = fieldChip.SelectExtension({cond}, {expr}, {dst}"))
    } else {
        None
    }
}

#[test]
fn masking_agrees_with_the_standard_library() {
    let samples = [
        "var1 = x",
        "  var1\t \u{a0}= x \u{3000}\u{2003}",
        "felt = = =",
        "exts=\u{85}",
        "vaR = 1",
        "a var b felt = ext = 3",
        "é var = ü ",
        "=",
        "next = 1",
        "va = r",
        "",
    ];
    for line in samples {
        assert_eq!(mask_line("k", line), by_the_library("k", line), "{:?}", line);
    }
}

#[test]
fn white_space_is_what_the_standard_library_trims() {
    for n in 0..0x3100u32 {
        if let Some(c) = char::from_u32(n) {
            assert_eq!(space(c), c.is_whitespace(), "{:x}", n);
        }
    }
}
