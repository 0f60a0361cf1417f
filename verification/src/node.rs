//! The managed nodes and how one is installed.
use vstd::prelude::*;
use crate::address::{host_text, host_to_string, IpAddress};

verus! {

/// A machine of the system: its address and the password of its `root`
/// account.
pub struct Node {
    ip: IpAddress,
    password: String,
}

/// The mathematical value of a [`Node`].
pub struct NodeView {
    pub ip: IpAddress,
    pub password: Seq<char>,
}

impl View for Node {
    type V = NodeView;

    closed spec fn view(&self) -> NodeView {
        NodeView { ip: self.ip, password: self.password@ }
    }
}

/// The source of a node's events.
pub struct EventPublisher {}

/// The account that installation logs in with.
pub open spec fn install_user() -> Seq<char> {
    "root"@
}

/// `user@host`: where ssh logs in.
pub open spec fn spec_remote(user: Seq<char>, host: Seq<char>) -> Seq<char> {
    user + "@"@ + host
}

/// The command that forgets a host's old key.
pub open spec fn spec_forget_host_command(remote: Seq<char>) -> Seq<char> {
    "ssh-keygen -R "@ + remote
}

/// The command that copies the public key to a host.
pub open spec fn spec_copy_id_command(remote: Seq<char>) -> Seq<char> {
    "ssh-copy-id -f "@ + remote
}

/// The script that ships the agent package to a host and runs its installer.
pub open spec fn spec_install_script(ssh_dst: Seq<char>, pack_path: Seq<char>) -> Seq<char> {
    "\n        ssh "@ + ssh_dst + " \"mkdir -p ~/ambassador-pack\"\n        scp -r "@ + pack_path
        + "/* "@ + ssh_dst + ":~/ambassador-pack/\n        ssh "@ + ssh_dst
        + " \"sh ~/ambassador-pack/install.sh\"\n        "@
}

/// The error text of a script that failed.
pub open spec fn spec_script_failure(script: Seq<char>) -> Seq<char> {
    "cmd failed: "@ + script
}

/// One step of the dialogue with `ssh-copy-id`.
#[derive(Debug, PartialEq, Eq)]
pub enum DialogStep {
    /// Wait until the output matches the regular expression or ends.
    ExpectOrEof(String),
    /// Type a line.
    SendLine(String),
    /// Wait until the output ends.
    ExpectEof,
}

/// The mathematical value of a [`DialogStep`].
pub enum DialogStepView {
    ExpectOrEof(Seq<char>),
    SendLine(Seq<char>),
    ExpectEof,
}

impl View for DialogStep {
    type V = DialogStepView;

    open spec fn view(&self) -> DialogStepView {
        match self {
            DialogStep::ExpectOrEof(p) => DialogStepView::ExpectOrEof(p@),
            DialogStep::SendLine(l) => DialogStepView::SendLine(l@),
            DialogStep::ExpectEof => DialogStepView::ExpectEof,
        }
    }
}

/// The dialogue with `ssh-copy-id`: accept the host key, then give the
/// password, then wait for the end.
pub open spec fn spec_copy_id_dialog(password: Seq<char>) -> Seq<DialogStepView> {
    seq![
        DialogStepView::ExpectOrEof("continue connecting.*"@),
        DialogStepView::SendLine("yes"@),
        DialogStepView::ExpectOrEof("'s password.*"@),
        DialogStepView::SendLine(password),
        DialogStepView::ExpectEof,
    ]
}

/// Everything that installing the agent on a node runs, in order: forget the
/// host's old key, copy the public key with `copy_id_command` (given
/// `copy_id_timeout_ms`) while conducting `dialog`, then run
/// `install_script`.
pub struct InstallPlan {
    pub forget_host_command: String,
    pub copy_id_command: String,
    pub copy_id_timeout_ms: u64,
    pub dialog: Vec<DialogStep>,
    pub install_script: String,
}

/// `user@host`.
pub fn remote(user: &str, host: &str) -> (res: String)
    ensures
        res@ == spec_remote(user@, host@),
{
    let mut s = user.to_owned();
    s.append("@");
    s.append(host);
    s
}

/// The installation script for `ssh_dst` with the package at `pack_path`.
pub fn install_script(ssh_dst: &str, pack_path: &str) -> (res: String)
    ensures
        res@ == spec_install_script(ssh_dst@, pack_path@),
{
    let mut s = "\n        ssh ".to_owned();
    s.append(ssh_dst);
    s.append(" \"mkdir -p ~/ambassador-pack\"\n        scp -r ");
    s.append(pack_path);
    s.append("/* ");
    s.append(ssh_dst);
    s.append(":~/ambassador-pack/\n        ssh ");
    s.append(ssh_dst);
    s.append(" \"sh ~/ambassador-pack/install.sh\"\n        ");
    s
}

/// What running a script comes to: success, or the error `cmd failed:
/// <script>` when the script's exit status is not a success.
pub fn script_outcome(success: bool, script: &str) -> (res: Result<(), String>)
    ensures
        success <==> res is Ok,
        res matches Err(e) ==> e@ == spec_script_failure(script@),
{
    if success {
        Ok(())
    } else {
        let mut s = "cmd failed: ".to_owned();
        s.append(script);
        Err(s)
    }
}

/// The dialogue with `ssh-copy-id` for the given password.
pub fn copy_id_dialog(password: &str) -> (res: Vec<DialogStep>)
    ensures
        res@.map_values(|s: DialogStep| s@) == spec_copy_id_dialog(password@),
{
    let mut v: Vec<DialogStep> = Vec::new();
    v.push(DialogStep::ExpectOrEof("continue connecting.*".to_owned()));
    v.push(DialogStep::SendLine("yes".to_owned()));
    v.push(DialogStep::ExpectOrEof("'s password.*".to_owned()));
    v.push(DialogStep::SendLine(password.to_owned()));
    v.push(DialogStep::ExpectEof);
    assert(v@.map_values(|s: DialogStep| s@) =~= spec_copy_id_dialog(password@));
    v
}

impl Node {
    /// A node with the given address and `root` password.
    pub fn new(ip: IpAddress, password: String) -> (res: Node)
        ensures
            res@.ip == ip,
            res@.password == password@,
    {
        Node { ip, password }
    }

    /// The node's address.
    pub fn ip(&self) -> (res: IpAddress)
        ensures
            res == self@.ip,
    {
        self.ip
    }

    /// The node's `root` password.
    pub fn password(&self) -> (res: &String)
        ensures
            res@ == self@.password,
    {
        &self.password
    }

    /// How the agent is installed on this node with the package at
    /// `pack_path`: as `root` on the node's address, the host's old key is
    /// forgotten, the public key is copied (answering `yes` and the node's
    /// password, waiting at most 5000 ms per step), and the install script
    /// runs. An IPv4 address is written in dotted decimal here; the text of an
    /// IPv6 address is `ipv6_text`, which is used for nothing else.
    pub fn install_plan(&self, ipv6_text: &str, pack_path: &str) -> (res: InstallPlan)
        ensures
            res.forget_host_command@ == spec_forget_host_command(
                spec_remote(install_user(), host_text(self@.ip, ipv6_text@)),
            ),
            res.copy_id_command@ == spec_copy_id_command(
                spec_remote(install_user(), host_text(self@.ip, ipv6_text@)),
            ),
            res.copy_id_timeout_ms == 5000,
            res.dialog@.map_values(|s: DialogStep| s@) == spec_copy_id_dialog(self@.password),
            res.install_script@ == spec_install_script(
                spec_remote(install_user(), host_text(self@.ip, ipv6_text@)),
                pack_path@,
            ),
    {
        let host_string = host_to_string(self.ip, ipv6_text);
        let host = host_string.as_str();
        let target = remote("root", host);
        let mut forget = "ssh-keygen -R ".to_owned();
        forget.append(target.as_str());
        let mut copy_id = "ssh-copy-id -f ".to_owned();
        copy_id.append(target.as_str());
        let dialog = copy_id_dialog(self.password.as_str());
        let script = install_script(target.as_str(), pack_path);
        InstallPlan {
            forget_host_command: forget,
            copy_id_command: copy_id,
            copy_id_timeout_ms: 5000,
            dialog,
            install_script: script,
        }
    }
}

/// The node registered under an address. Every address is answered with a
/// node of that address whose password is `540hs0qos`.
pub fn find(ip: &IpAddress) -> (res: Option<Node>)
    ensures
        res matches Some(n) && n@.ip == *ip && n@.password == "540hs0qos"@,
{
    Some(Node::new(*ip, "540hs0qos".to_owned()))
}

} // verus!
