use commandcode_proxy::fingerprint::{generate_fingerprint, DeviceProfile};
use commandcode_proxy::json::{json_string, Json};

const PLAIN: &str = r#"{"thumbmark":"6dd2fbb7040fcebcff71ed78ff1e978db9193f05ea29b3fbda2c9e1c87900c52","components":{"machineIdHash":"71ecc517696ac16061ec104f1c9849e88b8ddcb65abac5395d0edc3a7d4e94f5","macHashes":["c0bac49b82486e51f19ff06ceb75362c648db00b01ff21f8fed7b43077afe317","c07e1e59150ad299751207b78030dd8438d7d9680d6dcf7d060e274923053498"],"osUserHash":"845392654d16216abd349a7bf1911584c4e74091483182f5fb6745e24d8bcabf","hostnameHash":"398038cca2249362d9de1f352309f9a99e29eb3ab9afc5a302c0940b2b2ec196","gitEmailHash":"1b55524b975948aaa8d18999a17d177b19f0c45002974308eb63a4dfd7b7e49a","platform":"win32","arch":"x64","osRelease":"10.0.22631","cpuModel":"13th Gen Intel(R) Core(TM) i7-13700K","cpuCount":16,"memGiB":8,"isContainer":false,"timezone":"Australia/Sydney","runtime":"cli","collectorVersion":1}}"#;
const SALTED: &str = r#"{"thumbmark":"e72b1608b758b60b99712cc3fe27a573261e05d6f715d7024dac0ffae9c3428e","components":{"machineIdHash":"2067ad1d86041f57bebca9bf21230724349b2f37d6152512f409761556a31e1a","macHashes":["38c008c64ce0809178bae3ab5d55a2f392797534bdacbaa98d8106e4a63b197b","e1c0ffd940396f86282dca2c4d24ba796ed6033d63c6bfb37c5acb4150b06db4"],"osUserHash":"c5dc86122c5ebb552f2e851bf8d77ee5c827e35a36d209c80261473a4ae7d16a","hostnameHash":"28b17da41dc6d3c24e9bdf8a8837a10e3e25e905ddd8affc74276a34f461d8a7","gitEmailHash":"daf6d8a37700397d87f0ef9ae39cae03d7210523b24b6c28566dc8121692a830","platform":"win32","arch":"x64","osRelease":"10.0.22631","cpuModel":"12th Gen Intel(R) Core(TM) i5-12400F","cpuCount":6,"memGiB":32,"isContainer":false,"timezone":"Pacific/Auckland","runtime":"cli","collectorVersion":1}}"#;
const OTHER: &str = r#"{"thumbmark":"58491a3cf98e62edff3b8d1aabf6fdc2a682642d7a973e79d2a5a5da47d2a755","components":{"machineIdHash":"ffd7829604bdf7a3885a3dfcd2f93e064921ee8e2895904269ef89861b75a9fd","macHashes":["5324b104c118e930c68cdafec153c793d513d849f5678af258de1d9d335153dc","b583d8b2f154b6d2ab10c1b3f20b0327690e137779d09373784989c47925599a","f6e5a5bc9beecdbbe182f8acab6c05df9db5dcc4b6497bf499f83fa0136c8558","27490715b3843391e1cc40b767553e7f1e563cf547c1cc3c8f7cd07beb2ae12c","112dfe8b7fc4fe585a3060440428a282a282cdda85216b714d32feb477802ed0"],"osUserHash":"06414579e1354d2814990a25ee0523d4cc1fab56fe9218004b1d8d5f3e4bf68c","hostnameHash":"09be7f23a19a14e59f16da7a355c5231fc6814ed045411701518cbbde35a8c21","gitEmailHash":"56f6e98b33c70bab5e14e07985180ece477a614192a3086f08ebeec4be204e45","platform":"win32","arch":"x64","osRelease":"10.0.22631","cpuModel":"12th Gen Intel(R) Core(TM) i9-12900K","cpuCount":16,"memGiB":16,"isContainer":false,"timezone":"America/Chicago","runtime":"cli","collectorVersion":1}}"#;

#[test]
fn a_key_has_one_device() {
    let p = DeviceProfile::new("");
    assert_eq!(json_string(&generate_fingerprint("", "user_abc", &p)), PLAIN);
    assert_eq!(json_string(&generate_fingerprint("", "user_abc", &p.clone())), PLAIN);
}

#[test]
fn the_salt_makes_another_device() {
    let p = DeviceProfile::new("");
    assert_eq!(json_string(&generate_fingerprint("pepper", "user_abc", &p)), SALTED);
}

#[test]
fn another_key_has_another_device() {
    let p = DeviceProfile::new("");
    assert_eq!(json_string(&generate_fingerprint("", "user_other-1", &p)), OTHER);
}

#[test]
fn the_project_directory_is_no_part_of_it() {
    let p = DeviceProfile::new("/srv/app");
    assert_eq!(p.project_dir, "/srv/app");
    assert_eq!(json_string(&generate_fingerprint("", "user_abc", &p)), PLAIN);
}

#[test]
fn the_profile_has_built_in_values() {
    let p = DeviceProfile::new("");
    assert_eq!(p.platform, "win32");
    assert_eq!(p.arch, "x64");
    assert_eq!(p.os_release, "10.0.22631");
    assert!(!p.is_container);
    assert_eq!(p.project_dir, "C:\\Users\\dev\\projects\\app");
}

fn is_hash(s: Option<&str>) -> bool {
    s.is_some_and(|s| s.len() == 64 && s.chars().all(|c| c.is_ascii_digit() || ('a'..='f').contains(&c)))
}

#[test]
fn fingerprints_have_their_form() {
    let p = DeviceProfile::new("");
    for key in ["", "user_abc", "user_other-1", "k\u{e9}y", "1", "2", "3", "4", "5", "6", "7"] {
        let f = generate_fingerprint("salt", key, &p);
        assert!(is_hash(f.get_str("thumbmark")));
        let c = f.get("components").unwrap();
        for name in ["machineIdHash", "osUserHash", "hostnameHash", "gitEmailHash"] {
            assert!(is_hash(c.get_str(name)));
        }
        let macs = match c.get("macHashes") {
            Some(Json::Array(v)) => v,
            _ => panic!("no list"),
        };
        assert!(2 <= macs.len() && macs.len() <= 5);
        for m in macs {
            assert!(is_hash(m.as_str()));
        }
        assert_eq!(c.get_str("platform"), Some("win32"));
        assert_eq!(c.get_str("osRelease"), Some("10.0.22631"));
    }
}
