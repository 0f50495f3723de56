use envy::container::{EnvBuf, EnvContainer, MutableEnvContainer, OsEnv};
use envy::diff::{is_env_assignment, unset, Diff, Entry};
use envy::parse::{deserialize_text, lift_text_parse, serialize_text, EnvironmentParse, StringParseError};
use envy::{read_parsed, read_raw, EnvVariable, Error, Get, Modify};

#[derive(Debug, PartialEq)]
struct Count(u8);

impl EnvironmentParse<String> for Count {
    type Error = std::num::ParseIntError;

    fn env_serialize(self) -> String {
        self.0.to_string()
    }

    fn env_deserialize(raw: String) -> Result<Self, Self::Error> {
        Ok(Count(raw.parse::<u8>()?))
    }
}

impl EnvVariable for Count {
    const KEY: &'static str = "MY_COUNT";
}

#[derive(Debug, PartialEq)]
struct Name(String);

impl EnvironmentParse<String> for Name {
    type Error = std::convert::Infallible;

    fn env_serialize(self) -> String {
        self.0
    }

    fn env_deserialize(raw: String) -> Result<Self, Self::Error> {
        Ok(Name(raw))
    }
}

impl EnvVariable for Name {
    const KEY: &'static str = "USERNAME";
}

fn entry_pairs(entries: Vec<Entry>) -> Vec<(String, Option<Vec<u8>>)> {
    entries.into_iter().map(|e| e.to_tuple()).collect()
}

#[test]
fn entry_key_and_tuple() {
    let set = Entry::Assign { key: "A".to_string(), value: b"1".to_vec() };
    assert_eq!(set.key(), "A");
    assert_eq!(set.to_tuple(), ("A".to_string(), Some(b"1".to_vec())));
    let removed = Entry::Unset { key: "B".to_string() };
    assert_eq!(removed.key(), "B");
    assert_eq!(removed.to_tuple(), ("B".to_string(), None));
}

#[test]
fn entry_os_string_forms() {
    let set = Entry::Assign { key: "PATH".to_string(), value: b"/bin".to_vec() };
    assert_eq!(set.to_os_string(), b"PATH=/bin".to_vec());
    let removed = Entry::Unset { key: "PATH".to_string() };
    assert_eq!(removed.to_os_string(), b"PATH".to_vec());
    let unicode = Entry::Assign { key: "Ü".to_string(), value: vec![0xff] };
    assert_eq!(unicode.to_os_string(), vec![0xc3, 0x9c, b'=', 0xff]);
}

#[test]
fn typed_variable_is_one_assignment() {
    let pairs = entry_pairs(Count(42).to_env_diff());
    assert_eq!(pairs, vec![("MY_COUNT".to_string(), Some(b"42".to_vec()))]);
}

#[test]
fn unset_is_one_removal() {
    let pairs = entry_pairs(unset::<Count>().to_env_diff());
    assert_eq!(pairs, vec![("MY_COUNT".to_string(), None)]);
}

#[test]
fn option_diff() {
    assert!(None::<Count>.to_env_diff().is_empty());
    let pairs = entry_pairs(Some(Count(1)).to_env_diff());
    assert_eq!(pairs, vec![("MY_COUNT".to_string(), Some(b"1".to_vec()))]);
}

#[test]
fn str_assignment_diff() {
    let pairs = entry_pairs("FOO=bar baz".to_env_diff());
    assert_eq!(pairs, vec![("FOO".to_string(), Some(b"bar baz".to_vec()))]);
    let pairs = entry_pairs("=".to_env_diff());
    assert_eq!(pairs, vec![("".to_string(), Some(vec![]))]);
    let pairs = entry_pairs("ключ=знач".to_env_diff());
    assert_eq!(pairs, vec![("ключ".to_string(), Some("знач".as_bytes().to_vec()))]);
}

#[test]
fn assignment_check() {
    assert!(is_env_assignment("A=B"));
    assert!(is_env_assignment("=B"));
    assert!(is_env_assignment("A="));
    assert!(!is_env_assignment("AB"));
    assert!(!is_env_assignment(""));
    assert!(!is_env_assignment("A=B=C"));
    assert!(!is_env_assignment("=="));
}

#[test]
fn assignment_round_trip_bytes() {
    let text = "KEY=välue";
    let entry = text.to_env_diff().pop().unwrap();
    assert_eq!(entry.to_os_string(), text.as_bytes().to_vec());
}

#[test]
fn tuple_diff_in_order() {
    let pairs = entry_pairs((Count(1), unset::<Name>(), "X=y").to_env_diff());
    assert_eq!(
        pairs,
        vec![
            ("MY_COUNT".to_string(), Some(b"1".to_vec())),
            ("USERNAME".to_string(), None),
            ("X".to_string(), Some(b"y".to_vec())),
        ]
    );
    let mut buf = EnvBuf::new();
    buf.apply((Count(1), Count(2)));
    assert_eq!(buf.get::<Count>().unwrap(), Count(2));
}

#[test]
fn buffer_set_then_get() {
    let mut buf = EnvBuf::new();
    buf.set(Count(7));
    assert_eq!(buf.raw_get("MY_COUNT"), Some(b"7".to_vec()));
    assert_eq!(buf.get::<Count>().unwrap(), Count(7));
    assert_eq!(buf.maybe_get::<Count>().unwrap(), Some(Count(7)));
    buf.set(Count(9));
    assert_eq!(buf.get::<Count>().unwrap(), Count(9));
}

#[test]
fn buffer_missing_variable() {
    let buf = EnvBuf::new();
    assert!(matches!(buf.maybe_get::<Count>(), Ok(None)));
    assert!(matches!(buf.get::<Count>(), Err(Error::NoneError { key: "MY_COUNT" })));
}

#[test]
fn buffer_parse_error() {
    let mut buf = EnvBuf::new();
    buf.apply("MY_COUNT=many");
    match buf.get::<Count>() {
        Err(Error::ParseError { key, source: StringParseError::InvalidContent { .. } }) => {
            assert_eq!(key, "MY_COUNT")
        }
        other => panic!("unexpected {:?}", other),
    }
}

#[test]
fn buffer_invalid_encoding() {
    let buf = EnvBuf::from_entries(vec![Entry::Assign {
        key: "USERNAME".to_string(),
        value: vec![0xff, 0xfe],
    }]);
    match buf.get::<Name>() {
        Err(Error::ParseError { key, source: StringParseError::InvalidEncoding }) => {
            assert_eq!(key, "USERNAME")
        }
        other => panic!("unexpected {:?}", other),
    }
    assert_eq!(buf.raw_get("USERNAME"), Some(vec![0xff, 0xfe]));
}

#[test]
fn buffer_unset_hides_value() {
    let mut buf = EnvBuf::new();
    buf.set(Count(3));
    buf.apply(unset::<Count>());
    assert_eq!(buf.raw_get("MY_COUNT"), None);
    assert!(matches!(buf.maybe_get::<Count>(), Ok(None)));
    assert!(buf.as_hashmap().is_empty());
}

#[test]
fn buffer_set_leaves_other_keys() {
    let mut buf = EnvBuf::new();
    buf.set(Name("root".to_string()));
    buf.set(Count(1));
    assert_eq!(buf.get::<Name>().unwrap(), Name("root".to_string()));
}

#[test]
fn buffer_pull() {
    let mut buf = EnvBuf::new();
    buf.set(Count(5));
    assert_eq!(buf.pull::<Count>().unwrap(), Count(5));
    assert!(matches!(buf.maybe_get::<Count>(), Ok(None)));
    assert!(matches!(buf.pull::<Count>(), Err(Error::NoneError { .. })));
}

#[test]
fn buffer_maybe_pull() {
    let mut buf = EnvBuf::new();
    assert!(matches!(buf.maybe_pull::<Count>(), Ok(None)));
    buf.set(Count(6));
    assert_eq!(buf.maybe_pull::<Count>().unwrap(), Some(Count(6)));
    assert_eq!(buf.raw_get("MY_COUNT"), None);
}

#[test]
fn failed_pull_changes_nothing() {
    let mut buf = EnvBuf::new();
    buf.apply("MY_COUNT=x");
    assert!(matches!(buf.pull::<Count>(), Err(Error::ParseError { .. })));
    assert!(matches!(buf.maybe_pull::<Count>(), Err(Error::ParseError { .. })));
    assert_eq!(buf.raw_get("MY_COUNT"), Some(b"x".to_vec()));
}

#[test]
fn from_entries_later_wins() {
    let buf = EnvBuf::from_entries(vec![
        Entry::Assign { key: "A".to_string(), value: b"1".to_vec() },
        Entry::Assign { key: "B".to_string(), value: b"2".to_vec() },
        Entry::Unset { key: "A".to_string() },
        Entry::Assign { key: "B".to_string(), value: b"3".to_vec() },
    ]);
    assert_eq!(buf.raw_get("A"), None);
    assert_eq!(buf.raw_get("B"), Some(b"3".to_vec()));
    let mut listed = entry_pairs(buf.into_diff().to_env_diff());
    listed.sort();
    assert_eq!(
        listed,
        vec![("A".to_string(), None), ("B".to_string(), Some(b"3".to_vec()))]
    );
}

#[test]
fn from_diff_and_round_trip() {
    let buf = EnvBuf::from_diff((Count(4), "A=b", unset::<Name>()));
    let copy = EnvBuf::from_diff(buf.into_diff());
    assert_eq!(copy.raw_get("MY_COUNT"), Some(b"4".to_vec()));
    assert_eq!(copy.raw_get("A"), Some(b"b".to_vec()));
    assert_eq!(copy.raw_get("USERNAME"), None);
    assert_eq!(entry_pairs(copy.into_diff().to_env_diff()).len(), 3);
}

#[test]
fn as_hashmap_lists_assigned() {
    let mut buf = EnvBuf::new();
    buf.apply(("A=1", "B=2", "A=3"));
    buf.apply(unset::<Count>());
    let mut pairs: Vec<(String, Vec<u8>)> =
        buf.as_hashmap().into_iter().map(|(k, v)| (k.clone(), v.clone())).collect();
    pairs.sort();
    assert_eq!(pairs, vec![("A".to_string(), b"3".to_vec()), ("B".to_string(), b"2".to_vec())]);
}

#[test]
fn buffer_diff_iterates() {
    let mut buf = EnvBuf::new();
    buf.raw_merge("K=v");
    let keys: Vec<String> = buf.into_diff().into_iter().map(|e| e.key().to_string()).collect();
    assert_eq!(keys, vec!["K".to_string()]);
}

#[test]
fn view_reads_system_then_own_changes() {
    let mut env = OsEnv::new_view();
    assert_eq!(env.raw_get("HOME", Some(b"/root".to_vec())), Some(b"/root".to_vec()));
    assert_eq!(env.raw_get("HOME", None), None);
    env.raw_merge("HOME=/tmp");
    assert_eq!(env.raw_get("HOME", Some(b"/root".to_vec())), Some(b"/tmp".to_vec()));
    env.apply(unset::<Name>());
    assert_eq!(env.raw_get("USERNAME", Some(b"sys".to_vec())), None);
    let c = read_raw::<Count>(env.raw_get("MY_COUNT", Some(b"12".to_vec())));
    assert_eq!(c.unwrap(), Some(Count(12)));
}

#[test]
fn view_changes_are_its_diff() {
    let mut env = OsEnv::new_view();
    env.set(Count(3));
    env.apply(unset::<Name>());
    let mut pairs = entry_pairs(env.to_env_diff());
    pairs.sort();
    assert_eq!(
        pairs,
        vec![("MY_COUNT".to_string(), Some(b"3".to_vec())), ("USERNAME".to_string(), None)]
    );
    let fresh = OsEnv::new_view();
    assert!(fresh.to_env_diff().is_empty());
}

#[test]
fn dump_puts_view_changes_over_system() {
    let mut env = OsEnv::new_view();
    env.raw_merge(("A=local", "B=local"));
    env.apply(unset::<Name>());
    let system = vec![
        (b"A".to_vec(), b"sys".to_vec()),
        (vec![0xff], b"dropped".to_vec()),
        (b"C".to_vec(), b"c".to_vec()),
        (b"USERNAME".to_vec(), b"root".to_vec()),
    ];
    let buf = env.dump(system);
    assert_eq!(buf.raw_get("A"), Some(b"local".to_vec()));
    assert_eq!(buf.raw_get("B"), Some(b"local".to_vec()));
    assert_eq!(buf.raw_get("C"), Some(b"c".to_vec()));
    assert_eq!(buf.raw_get("USERNAME"), None);
    assert_eq!(buf.as_hashmap().len(), 3);
}

#[test]
fn dump_of_fresh_view_is_system() {
    let env = OsEnv::new_view();
    let buf = env.dump(vec![(b"X".to_vec(), b"1".to_vec()), (b"X".to_vec(), b"2".to_vec())]);
    assert_eq!(buf.raw_get("X"), Some(b"2".to_vec()));
    assert_eq!(buf.as_hashmap().len(), 1);
}

#[test]
fn view_typed_reads_and_pulls() {
    let mut env = OsEnv::new_view();
    assert_eq!(env.maybe_get::<Count>(Some(b"4".to_vec())).unwrap(), Some(Count(4)));
    assert!(matches!(env.maybe_get::<Count>(None), Ok(None)));
    assert!(matches!(env.get::<Count>(None), Err(Error::NoneError { key: "MY_COUNT" })));
    assert!(matches!(env.get::<Count>(Some(b"x".to_vec())), Err(Error::ParseError { .. })));
    env.set(Count(9));
    assert_eq!(env.get::<Count>(Some(b"4".to_vec())).unwrap(), Count(9));
    assert_eq!(env.pull::<Count>(Some(b"4".to_vec())).unwrap(), Count(9));
    assert_eq!(entry_pairs(OsEnv::new_view().to_env_diff()).len(), 0);
    // The view unset the key, so the process environment's value stays hidden.
    assert!(matches!(env.maybe_pull::<Count>(Some(b"5".to_vec())), Ok(None)));
    assert!(matches!(env.get::<Count>(Some(b"5".to_vec())), Err(Error::NoneError { .. })));
    assert!(matches!(env.pull::<Count>(Some(b"bad".to_vec())), Err(Error::NoneError { .. })));
    let mut other = OsEnv::new_view();
    assert!(matches!(other.pull::<Count>(Some(b"bad".to_vec())), Err(Error::ParseError { .. })));
    assert_eq!(other.maybe_pull::<Count>(Some(b"5".to_vec())).unwrap(), Some(Count(5)));
    assert!(matches!(other.maybe_get::<Count>(Some(b"5".to_vec())), Ok(None)));
    assert_eq!(entry_pairs(env.to_env_diff()), vec![("MY_COUNT".to_string(), None)]);
}

#[test]
fn view_diff_has_one_entry_per_key() {
    let mut env = OsEnv::new_view();
    env.raw_merge(("A=1", "A=2", "B=3"));
    env.apply(unset::<Count>());
    env.set(Count(2));
    let mut pairs = entry_pairs(env.to_env_diff());
    pairs.sort();
    assert_eq!(
        pairs,
        vec![
            ("A".to_string(), Some(b"2".to_vec())),
            ("B".to_string(), Some(b"3".to_vec())),
            ("MY_COUNT".to_string(), Some(b"2".to_vec())),
        ]
    );
}

#[test]
fn buffer_diff_keeps_last_entry_per_key() {
    let buf = EnvBuf::from_entries(vec![
        Entry::Assign { key: "K".to_string(), value: b"1".to_vec() },
        Entry::Unset { key: "L".to_string() },
        Entry::Assign { key: "K".to_string(), value: b"2".to_vec() },
        Entry::Assign { key: "L".to_string(), value: b"3".to_vec() },
        Entry::Unset { key: "K".to_string() },
    ]);
    let mut pairs = entry_pairs(buf.into_diff().to_env_diff());
    pairs.sort();
    assert_eq!(pairs, vec![("K".to_string(), None), ("L".to_string(), Some(b"3".to_vec()))]);
}

#[test]
fn equal_buffers_list_same_entries() {
    let first = EnvBuf::from_diff(("A=1", "B=2", unset::<Count>()));
    let second = EnvBuf::from_diff((unset::<Count>(), "B=2", "A=0", "A=1"));
    let mut a: Vec<_> = first.into_diff().into_iter().map(|e| e.to_tuple()).collect();
    let mut b = entry_pairs(second.into_diff().to_env_diff());
    a.sort();
    b.sort();
    assert_eq!(a, b);
}

#[test]
fn diff_conversions_agree() {
    let diff = ("A=1", unset::<Name>(), "B=2");
    let built = EnvBuf::from_diff(("A=1", unset::<Name>(), "B=2"));
    let mut merged = EnvBuf::new();
    merged.raw_merge(("A=1", unset::<Name>(), "B=2"));
    let from_entries = EnvBuf::from_entries(diff.to_env_diff());
    let mut x = entry_pairs(built.into_diff().to_env_diff());
    let mut y = entry_pairs(merged.into_diff().to_env_diff());
    let mut z = entry_pairs(from_entries.into_diff().to_env_diff());
    x.sort();
    y.sort();
    z.sort();
    assert_eq!(x, y);
    assert_eq!(y, z);
}

#[test]
fn bytes_round_trip_of_text_value() {
    let bytes = <Name as EnvironmentParse<Vec<u8>>>::env_serialize(Name("ñame".to_string()));
    assert_eq!(bytes, "ñame".as_bytes().to_vec());
    let back = <Name as EnvironmentParse<Vec<u8>>>::env_deserialize(bytes).unwrap();
    assert_eq!(back, Name("ñame".to_string()));
    assert!(matches!(
        <Count as EnvironmentParse<Vec<u8>>>::env_deserialize(vec![0x80]),
        Err(StringParseError::InvalidEncoding)
    ));
}

#[test]
fn applying_a_buffer_overlays_it() {
    let mut target = EnvBuf::new();
    target.apply(("A=old", "B=kept", "C=gone"));
    let mut changes = EnvBuf::new();
    changes.apply(("A=new", "D=added"));
    changes.raw_merge(Some(unset::<Name>()));
    changes.raw_merge("C=x");
    changes.apply(None::<Count>);
    target.apply(changes.into_diff());
    assert_eq!(target.raw_get("A"), Some(b"new".to_vec()));
    assert_eq!(target.raw_get("B"), Some(b"kept".to_vec()));
    assert_eq!(target.raw_get("C"), Some(b"x".to_vec()));
    assert_eq!(target.raw_get("D"), Some(b"added".to_vec()));
    assert_eq!(target.raw_get("MY_COUNT"), None);
}

#[test]
fn absent_diff_changes_nothing() {
    let mut buf = EnvBuf::new();
    buf.set(Count(8));
    buf.apply(None::<(Count, Name)>);
    assert_eq!(buf.get::<Count>().unwrap(), Count(8));
    assert_eq!(buf.as_hashmap().len(), 1);
}

#[test]
fn text_values_through_bytes() {
    assert_eq!(serialize_text(Count(250)), b"250".to_vec());
    assert_eq!(deserialize_text::<Count>(b"17".to_vec()).unwrap(), Count(17));
    assert!(matches!(
        deserialize_text::<Count>(b"300".to_vec()),
        Err(StringParseError::InvalidContent { .. })
    ));
    assert!(matches!(deserialize_text::<Count>(vec![b'1', 0xc0]), Err(StringParseError::InvalidEncoding)));
    assert!(matches!(lift_text_parse::<u8, ()>(Err(())), Err(StringParseError::InvalidContent { source: () })));
    assert!(matches!(lift_text_parse::<u8, ()>(Ok(3)), Ok(3)));
}

#[test]
fn read_parsed_outcomes() {
    assert!(matches!(read_parsed::<Count>(None), Ok(None)));
    assert_eq!(read_parsed::<Count>(Some(Ok(Count(1)))).unwrap(), Some(Count(1)));
    assert!(matches!(
        read_parsed::<Count>(Some(Err(StringParseError::InvalidEncoding))),
        Err(Error::ParseError { key: "MY_COUNT", source: StringParseError::InvalidEncoding })
    ));
    assert!(matches!(read_raw::<Count>(None), Ok(None)));
}

#[test]
fn unset_clone_and_diff() {
    let removal = unset::<Count>();
    let copy = removal.clone();
    assert_eq!(entry_pairs(copy.to_env_diff()), vec![("MY_COUNT".to_string(), None)]);
}
