use cyberdesk::appearance::{
    normalize_hex, presets, rewrite_var, semantic_vars, template, templates, valid_hex, Effect,
    Resolved, DEFAULT_TEMPLATE,
};

fn declared_value(css: &str, name: &str) -> Option<String> {
    css.lines()
        .find_map(|l| l.trim().strip_prefix(&format!("{name}:")))
        .map(|v| v.trim().trim_end_matches(';').to_string())
}

/// A theme block shaped like the one the theme renders.
const THEME_CSS: &str = ":root {\n  --bg: #05060A;\n  --brand: #009FE3;\n  --panel: #0B0E16;\n  --panel-border: #1C2333;\n  --text: #E6EAF2;\n  --text-dim: #8A93A6;\n  --accent: #00E5FF;\n  --warn: #FFB020;\n  --error: #FF4D5E;\n  --success: #2BD67B;\n  --ampel-green: #2BD67B;\n  --ampel-yellow: #FFC83D;\n  --ampel-red: #FF3B3B;\n  --corner-radius: 14px;\n}\n";

#[test]
fn no_semantic_var_is_accent_themed() {
    let semantic = semantic_vars();
    for t in templates() {
        let r = Resolved {
            template_id: t.id.into(),
            accent: "#FF00FF".into(),
            intensity: t.default_intensity,
            glow: t.default_glow,
            motion: t.default_motion,
        };
        for (name, _) in r.accent_vars() {
            assert!(
                !semantic.contains(&name.as_str()),
                "accent fan-out must never own the semantic property {name}"
            );
        }
    }
}

#[test]
fn accent_never_recolours_the_status_palette() {
    let base = THEME_CSS.to_string();
    let r = Resolved {
        template_id: "cyber".into(),
        accent: "#FF00FF".into(),
        intensity: 100,
        glow: 100,
        motion: true,
    };
    let themed = r.css_vars(&base);
    for var in semantic_vars() {
        let before = declared_value(&base, var);
        let after = declared_value(&themed, var);
        assert_eq!(before, after, "{var} changed with the accent: {before:?} -> {after:?}");
    }
    assert_eq!(declared_value(&themed, "--brand").as_deref(), Some("#FF00FF"));
    assert_eq!(declared_value(&themed, "--accent").as_deref(), Some("#FF00FF"));
    assert_ne!(declared_value(&base, "--brand"), declared_value(&themed, "--brand"));
}

#[test]
fn rewrite_var_matches_whole_property_names() {
    let css = ":root {\n  --brand: #111111;\n  --brand-dim: #222222;\n}";
    let out = rewrite_var(css, "--brand", "#ABCDEF");
    assert!(out.contains("--brand: #ABCDEF;"));
    assert!(out.contains("--brand-dim: #222222;"), "neighbour was rewritten: {out}");
}

#[test]
fn templates_are_well_formed_data() {
    let all = templates();
    assert!(all.iter().any(|t| t.id == DEFAULT_TEMPLATE));
    for t in &all {
        assert!(!t.label.is_empty() && !t.note.is_empty(), "{} lacks copy", t.id);
        assert!(valid_hex(t.default_accent), "{} has a bad accent", t.id);
        assert!(t.default_intensity <= 200 && t.default_glow <= 200);
    }
    assert_eq!(template("nonexistent").id, all[0].id);
}

#[test]
fn presets_are_valid_and_distinct() {
    let all = presets();
    for p in &all {
        assert!(valid_hex(p.hex), "{} is not #RRGGBB", p.id);
    }
    for (i, a) in all.iter().enumerate() {
        for b in &all[i + 1..] {
            assert_ne!(a.id, b.id);
            assert_ne!(a.hex, b.hex, "{} and {} are the same colour", a.id, b.id);
        }
    }
}

#[test]
fn custom_colours_are_validated_at_the_door() {
    assert_eq!(normalize_hex("#00ff88").as_deref(), Some("#00FF88"));
    assert_eq!(normalize_hex("  #009FE3 ").as_deref(), Some("#009FE3"));
    assert!(normalize_hex("009FE3").is_none(), "missing #");
    assert!(normalize_hex("#00FE3").is_none(), "too short");
    assert!(normalize_hex("#GGGGGG").is_none(), "not hex");
    assert!(normalize_hex("red").is_none());
    assert!(normalize_hex("#009FE3; --warn: red").is_none(), "no injection");
}

#[test]
fn css_vars_rewrites_only_the_accent_family_lines() {
    let r = Resolved {
        template_id: "calm".into(),
        accent: "#123456".into(),
        intensity: 50,
        glow: 50,
        motion: false,
    };
    let out = r.css_vars(THEME_CSS);
    let expected = THEME_CSS
        .replace("  --brand: #009FE3;", "  --brand: #123456;")
        .replace("  --accent: #00E5FF;", "  --accent: #123456;");
    // Lines are joined with newlines; the final empty line is dropped.
    assert_eq!(out, expected.trim_end_matches('\n'));
}

#[test]
fn unknown_template_falls_back_to_the_first_and_effects_name_themselves() {
    let r = Resolved {
        template_id: "future-template".into(),
        accent: "#FFFFFF".into(),
        intensity: 0,
        glow: 0,
        motion: false,
    };
    assert_eq!(r.template().id, templates()[0].id);
    assert_eq!(r.effect().as_str(), templates()[0].effect.as_str());
    let calm = template("calm");
    assert_eq!(calm.id, "calm");
    assert!(matches!(Effect::PulseGrid, Effect::PulseGrid));
}

#[test]
fn valid_hex_is_exactly_seven_characters() {
    assert!(valid_hex("#a0B1c2"));
    assert!(!valid_hex("#a0B1c2f"));
    assert!(!valid_hex(""));
    assert!(!valid_hex("#a0B1cZ"));
    assert_eq!(normalize_hex("\t#abcdef\n").as_deref(), Some("#ABCDEF"));
}
