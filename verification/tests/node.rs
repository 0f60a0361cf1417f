use system_manager::address::{host_to_string, ipv4_to_string, IpAddress};
use system_manager::node::{copy_id_dialog, find, install_script, remote, script_outcome, DialogStep, Node};

#[test]
fn new_node_keeps_address_and_password() {
    let n = Node::new(IpAddress::V4(0x0a00_0a3b), "pw".to_string());
    assert_eq!(n.ip(), IpAddress::V4(0x0a00_0a3b));
    assert_eq!(n.password(), "pw");
}

#[test]
fn repository_finds_every_address() {
    let ip = IpAddress::V6(1);
    let n = find(&ip).unwrap();
    assert_eq!(n.ip(), ip);
    assert_eq!(n.password(), "540hs0qos");
}

#[test]
fn install_script_text() {
    let script = install_script("root@10.0.10.59", "./target/ambassador-pack");
    assert_eq!(
        script,
        r#"
        ssh root@10.0.10.59 "mkdir -p ~/ambassador-pack"
        scp -r ./target/ambassador-pack/* root@10.0.10.59:~/ambassador-pack/
        ssh root@10.0.10.59 "sh ~/ambassador-pack/install.sh"
        "#
    );
}

#[test]
fn install_plan_for_a_node() {
    let n = Node::new(IpAddress::V4(0x0a00_0a3b), "secret".to_string());
    let plan = n.install_plan("not used for IPv4", "./ambassador-pack");
    assert_eq!(plan.forget_host_command, "ssh-keygen -R root@10.0.10.59");
    assert_eq!(plan.copy_id_command, "ssh-copy-id -f root@10.0.10.59");
    assert_eq!(plan.copy_id_timeout_ms, 5000);
    assert_eq!(plan.dialog, copy_id_dialog("secret"));
    assert_eq!(plan.install_script, install_script("root@10.0.10.59", "./ambassador-pack"));
}

#[test]
fn copy_id_dialogue() {
    assert_eq!(
        copy_id_dialog("pw"),
        vec![
            DialogStep::ExpectOrEof("continue connecting.*".to_string()),
            DialogStep::SendLine("yes".to_string()),
            DialogStep::ExpectOrEof("'s password.*".to_string()),
            DialogStep::SendLine("pw".to_string()),
            DialogStep::ExpectEof,
        ]
    );
    assert_eq!(remote("root", "::1"), "root@::1");
}

#[test]
fn failed_script_is_an_error() {
    assert_eq!(script_outcome(true, "ls"), Ok(()));
    assert_eq!(script_outcome(false, "ls /nope"), Err("cmd failed: ls /nope".to_string()));
}

#[test]
fn install_plan_for_an_ipv6_node() {
    let n = Node::new(IpAddress::V6(1), "pw".to_string());
    let plan = n.install_plan("::1", "./pack");
    assert_eq!(plan.forget_host_command, "ssh-keygen -R root@::1");
    assert_eq!(plan.copy_id_command, "ssh-copy-id -f root@::1");
    assert_eq!(plan.install_script, install_script("root@::1", "./pack"));
}

#[test]
fn ipv4_dotted_decimal() {
    assert_eq!(ipv4_to_string(0), "0.0.0.0");
    assert_eq!(ipv4_to_string(0x7f00_0001), "127.0.0.1");
    assert_eq!(ipv4_to_string(0x0a00_0a3b), "10.0.10.59");
    assert_eq!(ipv4_to_string(u32::MAX), "255.255.255.255");
    assert_eq!(ipv4_to_string(0xc0a8_0164), "192.168.1.100");
}

#[test]
fn host_text_of_both_families() {
    assert_eq!(host_to_string(IpAddress::V4(0x0102_0304), "x"), "1.2.3.4");
    assert_eq!(host_to_string(IpAddress::V6(1), "::1"), "::1");
}
