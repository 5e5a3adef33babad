use lupa::preview::{
    closes_on_key, closes_on_leave, failure_text, pick_monitor, preview_extent, select_plugin,
    stub_text, user_css_path, MonitorChoice, Offer, PreviewPluginCfg, DEFAULT_HEIGHT,
    DEFAULT_WIDTH, MIN_HEIGHT, MIN_WIDTH,
};

fn winner_of(plugins: &[(&'static str, u32)]) -> Option<&'static str> {
    let offers: Vec<Offer> = plugins
        .iter()
        .map(|(id, score)| Offer { id: id.to_string(), score: *score })
        .collect();
    select_plugin(&offers).map(|i| plugins[i].0)
}

#[test]
fn highest_score_wins() {
    let winner = winner_of(&[("a", 10), ("b", 50), ("c", 30)]);
    assert_eq!(winner, Some("b"));
}

#[test]
fn ties_broken_by_id_alphabetical() {
    let winner = winner_of(&[("zulu", 50), ("alpha", 50), ("mike", 50)]);
    assert_eq!(
        winner,
        Some("zulu"),
        "expected the lexicographically largest id on a score tie"
    );
}

#[test]
fn zero_score_filtered() {
    let winner = winner_of(&[("zero", 0), ("one", 1)]);
    assert_eq!(winner, Some("one"));
}

#[test]
fn all_zero_returns_none() {
    let winner = winner_of(&[("a", 0), ("b", 0)]);
    assert_eq!(winner, None);
}

#[test]
fn empty_registry_returns_none() {
    let winner = winner_of(&[]);
    assert_eq!(winner, None);
}

#[test]
fn bundle_links_the_trait_crate() {
    assert!(select_plugin(&Vec::new()).is_none());
}

#[test]
fn preview_plugin_cfg_none_has_sensible_defaults() {
    let cfg: PreviewPluginCfg<'_, toml::Value> = PreviewPluginCfg::none();
    assert!(cfg.section.is_none());
    assert_eq!(cfg.max_file_size_mb, 200);
}

#[test]
fn a_longer_name_comes_after_its_beginning() {
    assert_eq!(winner_of(&[("text", 5), ("texture", 5), ("te", 5)]), Some("texture"));
    assert_eq!(winner_of(&[("z", 4), ("a", 5)]), Some("a"));
}

#[test]
fn sizes() {
    assert_eq!((DEFAULT_WIDTH, DEFAULT_HEIGHT), (960, 720));
    assert_eq!(preview_extent(1920, MIN_WIDTH), 1536);
    assert_eq!(preview_extent(1080, MIN_HEIGHT), 864);
    assert_eq!(preview_extent(700, MIN_WIDTH), 600);
    assert_eq!(preview_extent(-5, MIN_HEIGHT), 400);
}

#[test]
fn screens() {
    let names = vec![None, Some("eDP-1".to_string()), Some("DP-2".to_string())];
    let want = |s: &str| Some(s.to_string());
    assert_eq!(pick_monitor(&want("DP-2"), &names, true), Some(MonitorChoice::Listed(2)));
    assert_eq!(pick_monitor(&want("X"), &names, true), Some(MonitorChoice::UnderPointer));
    assert_eq!(pick_monitor(&want(""), &names, false), Some(MonitorChoice::Listed(0)));
    assert_eq!(pick_monitor(&None, &names, false), Some(MonitorChoice::Listed(0)));
    assert_eq!(pick_monitor(&None, &vec![], false), None);
}

#[test]
fn closing() {
    assert!(closes_on_key("Escape") && closes_on_key("space"));
    assert!(!closes_on_key("Return"));
    assert!(!closes_on_leave(149) && closes_on_leave(150));
}

#[test]
fn texts_of_the_preview() {
    assert_eq!(failure_text("pdf", "broken"), "Preview failed (pdf):\nbroken");
    assert_eq!(stub_text("t", "s"), "Preview (stub)\nt\ns");
    assert_eq!(
        user_css_path(&Some("/c".to_string())),
        Some("/c/lixun/style.css".to_string())
    );
    assert_eq!(user_css_path(&None), None);
}
