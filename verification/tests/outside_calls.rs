use unblocker_core::system::commands::state_record;
use unblocker_core::zapret::sites::expand_ranges;

fn strings(v: &[&str]) -> Vec<String> {
    v.iter().map(|x| x.to_string()).collect()
}

#[test]
fn ranges_expand_to_all_their_addresses() {
    assert_eq!(expand_ranges(&strings(&["10.0.0.0/30"]), 2048), strings(&["10.0.0.0", "10.0.0.1", "10.0.0.2", "10.0.0.3"]));
    assert_eq!(expand_ranges(&strings(&["10.0.0.0/31", "bad", "10.0.0.8/32"]), 2048), strings(&["10.0.0.0", "10.0.0.1", "10.0.0.8"]));
    assert_eq!(expand_ranges(&strings(&["10.0.0.0/24"]), 3), strings(&["10.0.0.0", "10.0.0.1", "10.0.0.2"]));
    assert_eq!(expand_ranges(&strings(&["10.0.0.0/24"]), 2048).len(), 256);
    assert_eq!(expand_ranges(&strings(&["91.108.4.0/22"]), 2048).len(), 1024);
    assert_eq!(expand_ranges(&strings(&["10.0.0.0/30", "10.0.1.0/30"]), 5), strings(&["10.0.0.0", "10.0.0.1", "10.0.0.2", "10.0.0.3", "10.0.1.0"]));
    assert!(expand_ranges(&strings(&["10.0.0.0/30"]), 0).is_empty());
}

#[test]
fn state_file_is_pretty_json() {
    assert_eq!(state_record(1080, "--disorder 1", 7), "{\n  \"pid\": 7,\n  \"port\": 1080,\n  \"profile\": \"--disorder 1\"\n}");
    assert_eq!(state_record(1, "a\"b", 2), "{\n  \"pid\": 2,\n  \"port\": 1,\n  \"profile\": \"a\\\"b\"\n}");
    assert_eq!(
        state_record(65535, "a\tb\u{1}c\\\u{1f}é\u{7f}", 4294967295),
        "{\n  \"pid\": 4294967295,\n  \"port\": 65535,\n  \"profile\": \"a\\tb\\u0001c\\\\\\u001fé\u{7f}\"\n}"
    );
}
