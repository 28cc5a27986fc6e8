use creche::envconfig::{EnvMap, EnvironmentBuilder, Environment, make_cstring_env};

fn parent() -> Vec<(Vec<u8>, Vec<u8>)> {
    vec![
        (b"PATH".to_vec(), b"/bin".to_vec()),
        (b"HOME".to_vec(), b"/root".to_vec()),
        (b"TERM".to_vec(), b"xterm".to_vec()),
    ]
}

fn lines(env: Environment) -> Vec<String> {
    let mut v: Vec<String> = env
        .into_iter()
        .map(|a| String::from_utf8(a.into_value()).unwrap())
        .collect();
    v.sort();
    v
}

#[test]
fn inherits_everything_by_default() {
    let env = EnvironmentBuilder::new().realize(&parent());
    assert_eq!(lines(env), vec!["HOME=/root", "PATH=/bin", "TERM=xterm"]);
}

#[test]
fn clear_starts_empty() {
    let mut b = EnvironmentBuilder::new();
    b.clear();
    assert!(b.realize(&parent()).is_empty());
}

#[test]
fn keep_is_a_whitelist() {
    let mut b = EnvironmentBuilder::new();
    b.keep(b"HOME".to_vec()).keep(b"PATH".to_vec()).set(b"server_port".to_vec(), b"1234".to_vec());
    assert_eq!(lines(b.realize(&parent())), vec!["HOME=/root", "PATH=/bin", "server_port=1234"]);
}

#[test]
fn remove_is_a_blacklist() {
    let mut b = EnvironmentBuilder::new();
    b.remove(b"TERM".to_vec());
    assert_eq!(lines(b.realize(&parent())), vec!["HOME=/root", "PATH=/bin"]);
}

#[test]
fn switching_policy_starts_a_new_list() {
    let mut b = EnvironmentBuilder::new();
    b.keep(b"HOME".to_vec()).remove(b"PATH".to_vec());
    // the whitelist is dropped: everything but PATH passes
    assert_eq!(lines(b.realize(&parent())), vec!["HOME=/root", "TERM=xterm"]);
    let mut c = EnvironmentBuilder::new();
    c.remove(b"PATH".to_vec()).keep(b"TERM".to_vec());
    assert_eq!(lines(c.realize(&parent())), vec!["TERM=xterm"]);
}

#[test]
fn set_overrides_inherited_and_earlier_values() {
    let mut b = EnvironmentBuilder::new();
    b.set(b"HOME".to_vec(), b"/etc".to_vec())
        .set(b"X".to_vec(), b"1".to_vec())
        .set(b"X".to_vec(), b"2".to_vec());
    assert_eq!(
        lines(b.realize(&parent())),
        vec!["HOME=/etc", "PATH=/bin", "TERM=xterm", "X=2"]
    );
}

#[test]
fn clear_keeps_variables_set() {
    let mut b = EnvironmentBuilder::new();
    b.set(b"A".to_vec(), b"".to_vec()).clear();
    assert_eq!(lines(b.realize(&parent())), vec!["A="]);
}

#[test]
fn later_parent_entry_wins() {
    let p = vec![(b"A".to_vec(), b"1".to_vec()), (b"A".to_vec(), b"2".to_vec())];
    assert_eq!(lines(EnvironmentBuilder::new().realize(&p)), vec!["A=2"]);
}

#[test]
fn env_map_insert_replaces() {
    let mut m = EnvMap::new();
    m.insert(b"K".to_vec(), b"v1".to_vec());
    m.insert(b"L".to_vec(), b"w".to_vec());
    m.insert(b"K".to_vec(), b"v2".to_vec());
    assert_eq!(m.len(), 2);
    let (k, v) = m.entry(0);
    assert_eq!((k.clone(), v.clone()), (b"K".to_vec(), b"v2".to_vec()));
    assert_eq!(lines(make_cstring_env(m)), vec!["K=v2", "L=w"]);
}
