use qingjian::reload::{attach_cloud, Backend, ConfigReload, DictionaryFile};

fn file(path: &str, modified: u64) -> DictionaryFile {
    DictionaryFile {
        path: path.to_owned(),
        modified: Some(modified),
        len: 10,
    }
}

#[test]
fn dictionary_changes_do_not_retry_a_broken_config() {
    let mut reload = ConfigReload::watch_config(0, Some(100), vec![file("law.qj", 1)]);
    let plan = reload.poll_config_reload(500, vec![file("law.qj", 2)], Some(200));
    assert!(!plan.checked, "less than a second passed");
    let plan = reload.poll_config_reload(1000, vec![file("law.qj", 1)], Some(200));
    assert!(plan.checked);
    assert!(!plan.reload_dictionaries);
    assert!(plan.reload_config);
    let plan = reload.poll_config_reload(2000, vec![file("law.qj", 2)], Some(200));
    assert!(plan.reload_dictionaries);
    assert!(!plan.reload_config, "the same broken file is not read again");
    let plan = reload.poll_config_reload(3000, vec![file("law.qj", 2)], Some(200));
    assert!(plan.checked);
    assert!(!plan.reload_dictionaries);
    assert!(!plan.reload_config);
    assert!(!reload.is_due(3999));
    assert!(reload.is_due(4000));
}

#[test]
fn cloud_backends_need_the_switch_and_a_client() {
    let off = attach_cloud(false, true, true);
    assert_eq!(off.predictor, Backend::Local);
    assert_eq!(off.gloss_filler, Backend::Local);
    let partial = attach_cloud(true, false, true);
    assert_eq!(partial.predictor, Backend::Local);
    assert_eq!(partial.gloss_filler, Backend::Cloud);
    let on = attach_cloud(true, true, true);
    assert_eq!(on.predictor, Backend::Cloud);
}
