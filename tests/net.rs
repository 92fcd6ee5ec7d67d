use monitoring_service::errors::{GetNetInterfacesError, NetyError};
use monitoring_service::ip::{parse_ip, parse_line, parse_name, split_lines, Ip};
use monitoring_service::public_ip::{first_installed, Dig};

const IP_OUTPUT: &str = r"1: lo    inet 127.0.0.1/8 scope host lo\       valid_lft forever preferred_lft forever
1: lo    inet6 ::1/128 scope host \       valid_lft forever preferred_lft forever
2: enp34s0    inet 192.168.0.11/24 brd 192.168.0.255 scope global dynamic noprefixroute enp34s0\       valid_lft 2180sec preferred_lft 2180sec
2: enp34s0    inet6 fe80::6954:9b0a:f51f:e14e/64 scope link noprefixroute \       valid_lft forever preferred_lft forever
4: docker0    inet 172.17.0.1/16 brd 172.17.255.255 scope global docker0\       valid_lft forever preferred_lft forever
4: docker0    inet6 fe80::42:f3ff:fe8b:ca5c/64 scope link \       valid_lft forever preferred_lft forever
5: br-60984024090a    inet 172.18.0.1/16 brd 172.18.255.255 scope global br-60984024090a\       valid_lft forever preferred_lft forever
7: veth5e001f8    inet6 fe80::1442:1ff:feb9:41b5/64 scope link \       valid_lft forever preferred_lft forever
";

fn text(b: &[u8]) -> String {
    String::from_utf8(b.to_vec()).unwrap()
}

#[test]
fn ip_output_fields() {
    let fields = Ip::new().parse_output_fields(&IP_OUTPUT.as_bytes().to_vec());
    let expected = vec![
        ("lo", "127.0.0.1"),
        ("lo", "::1"),
        ("enp34s0", "192.168.0.11"),
        ("enp34s0", "fe80::6954:9b0a:f51f:e14e"),
        ("docker0", "172.17.0.1"),
        ("docker0", "fe80::42:f3ff:fe8b:ca5c"),
        ("br-60984024090a", "172.18.0.1"),
        ("veth5e001f8", "fe80::1442:1ff:feb9:41b5"),
    ];
    assert_eq!(fields.len(), expected.len());
    for (i, (name, address)) in expected.iter().enumerate() {
        assert_eq!(text(&fields[i].0), *name);
        assert_eq!(text(&fields[i].1), *address);
    }
}

#[test]
fn lines_keep_newline_and_drop_unterminated_tail() {
    let lines = split_lines(&b"ab\n\ncd\nef".to_vec());
    assert_eq!(lines, vec![b"ab\n".to_vec(), b"\n".to_vec(), b"cd\n".to_vec()]);
    assert!(split_lines(&Vec::new()).is_empty());
}

#[test]
fn name_follows_first_space() {
    let line = b"12: eth0 inet 10.0.0.1/8".to_vec();
    let (name, next) = parse_name(&line, 0);
    assert_eq!(name, b"eth0".to_vec());
    assert_eq!(next, 9);
    assert_eq!(parse_ip(&line, next), b"10.0.0.1".to_vec());
    let (name, next) = parse_name(&b"nospace".to_vec(), 0);
    assert!(name.is_empty());
    assert_eq!(next, 7);
}

#[test]
fn address_without_slash_runs_to_line_end() {
    assert_eq!(parse_ip(&b"x inet6 ::1".to_vec(), 0), b"::1".to_vec());
    assert!(parse_ip(&b"x addr ::1/128".to_vec(), 0).is_empty());
    let (name, address) = parse_line(&b"3: wlan0    inet 10.1.2.3/24 brd\n".to_vec());
    assert_eq!(name, b"wlan0".to_vec());
    assert_eq!(address, b"10.1.2.3".to_vec());
}

#[test]
fn dig_output_drops_newline() {
    let dig = Dig::new();
    assert_eq!(dig.name(), "dig");
    assert_eq!(dig.address_text(&b"95.153.16.81\n".to_vec()), Some(b"95.153.16.81".to_vec()));
    assert_eq!(dig.address_text(&Vec::new()), None);
}

#[test]
fn first_installed_tool_is_chosen() {
    assert_eq!(first_installed(&vec![false, true, true]), Some(1));
    assert_eq!(first_installed(&vec![false, false]), None);
    assert_eq!(first_installed(&vec![]), None);
}

#[test]
fn error_messages() {
    assert_eq!(
        GetNetInterfacesError::NoNameForInterfaceFound.message(),
        "No name found for network interface."
    );
    assert_eq!(
        NetyError::NoGetPublicIPToolInstalled.message(),
        "No tools for getting the public ip installed"
    );
}
