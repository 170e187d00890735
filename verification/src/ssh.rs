//! The argument vector of the `ssh` client for a remote command.

use crate::address::{Address, Endpoint};
use crate::decimal::{decimal_text, u16_to_string};
use vstd::prelude::*;
use vstd::string::StringExecFns;

verus! {

/// Inputs for an SSH command, excluding the remote command itself.
///
/// No field is checked: an empty user or an identity file that does not
/// exist is handed on as it is, and it is the `ssh` client that objects.
#[derive(Debug, Eq)]
pub struct SshParams {
    /// Target address.
    pub address: Address,
    /// Optional identity file (`-i` option), as the text of its path.
    pub identity: Option<String>,
    /// Target user name.
    pub user: Option<String>,
    /// If false, skip the known-host check and do not add the target to
    /// the known-hosts file. This is useful, for example, with ephemeral
    /// VMs.
    ///
    /// Setting this to false adds these flags:
    /// 1. `-oStrictHostKeyChecking=no`
    /// 2. `-oUserKnownHostsFile=/dev/null`
    pub strict_host_key_checking: bool,
}

/// Another name for [`SshParams`]: the target of a remote command.
pub type SshTarget = SshParams;

/// What an [`SshParams`] stands for.
pub struct SshParamsView {
    pub address: Endpoint,
    pub identity: Option<Seq<char>>,
    pub user: Option<Seq<char>>,
    pub strict_host_key_checking: bool,
}

/// The characters of an optional string.
pub open spec fn optional_text(text: Option<String>) -> Option<Seq<char>> {
    match text {
        Some(text) => Some(text@),
        None => None,
    }
}

impl View for SshParams {
    type V = SshParamsView;

    open spec fn view(&self) -> SshParamsView {
        SshParamsView {
            address: self.address@,
            identity: optional_text(self.identity),
            user: optional_text(self.user),
            strict_host_key_checking: self.strict_host_key_checking,
        }
    }
}

/// The characters of each token of an argument vector.
pub open spec fn texts(tokens: Seq<String>) -> Seq<Seq<char>> {
    Seq::new(tokens.len(), |i: int| tokens[i]@)
}

/// The characters of each argument of a remote command.
pub open spec fn arg_texts(args: Seq<&str>) -> Seq<Seq<char>> {
    Seq::new(args.len(), |i: int| args[i]@)
}

/// The options that switch the host-key check off; none where the check
/// is strict.
pub open spec fn host_key_tokens(strict: bool) -> Seq<Seq<char>> {
    if strict {
        seq![]
    } else {
        seq!["-oStrictHostKeyChecking=no"@, "-oUserKnownHostsFile=/dev/null"@]
    }
}

/// `-i` and the identity file; nothing where there is none.
pub open spec fn identity_tokens(identity: Option<Seq<char>>) -> Seq<Seq<char>> {
    match identity {
        Some(path) => seq!["-i"@, path],
        None => seq![],
    }
}

/// `-p` and the port in decimal; nothing where there is none.
pub open spec fn port_tokens(port: Option<u16>) -> Seq<Seq<char>> {
    match port {
        Some(port) => seq!["-p"@, decimal_text(port as nat)],
        None => seq![],
    }
}

/// `user@host` where there is a user and its name is not empty, else the
/// host alone.
pub open spec fn target_token(user: Option<Seq<char>>, host: Seq<char>) -> Seq<char> {
    match user {
        Some(user) => if user.len() > 0 {
            user + seq!['@'] + host
        } else {
            host
        },
        None => host,
    }
}

/// Everything that stands in front of the remote command: the program
/// name, the options in their fixed order, and the target.
pub open spec fn connection_tokens(params: SshParamsView) -> Seq<Seq<char>> {
    seq!["ssh"@] + host_key_tokens(params.strict_host_key_checking) + seq!["-oBatchMode=yes"@]
        + identity_tokens(params.identity) + port_tokens(params.address.port) + seq![
        target_token(params.user, params.address.host),
    ]
}

/// The whole argument vector: the connection's tokens, then the remote
/// command as it was given.
pub open spec fn command_tokens(params: SshParamsView, args: Seq<Seq<char>>) -> Seq<Seq<char>> {
    connection_tokens(params) + args
}

/// Where the target stands in an argument vector that ends in `args`.
pub open spec fn target_index(tokens: Seq<Seq<char>>, args: Seq<Seq<char>>) -> int {
    tokens.len() - args.len() - 1
}

/// Whether two optional strings hold the same characters, or are both
/// missing.
fn same_text(left: &Option<String>, right: &Option<String>) -> (same: bool)
    ensures
        same == (optional_text(*left) == optional_text(*right)),
{
    match (left, right) {
        (Some(left), Some(right)) => *left == *right,
        (None, None) => true,
        _ => false,
    }
}

/// Appends one token.
fn push_token(output: &mut Vec<String>, token: String)
    ensures
        texts(final(output)@) == texts(old(output)@).push(token@),
{
    output.push(token);
    assert(texts(output@) =~= texts(old(output)@).push(token@));
}

impl Clone for SshParams {
    fn clone(&self) -> (copy: SshParams)
        ensures
            copy@ == self@,
    {
        SshParams {
            address: self.address.clone(),
            identity: match &self.identity {
                Some(path) => Some(path.clone()),
                None => None,
            },
            user: match &self.user {
                Some(user) => Some(user.clone()),
                None => None,
            },
            strict_host_key_checking: self.strict_host_key_checking,
        }
    }
}

impl PartialEq for SshParams {
    fn eq(&self, other: &SshParams) -> (equal: bool) {
        self.address == other.address && same_text(&self.identity, &other.identity) && same_text(
            &self.user,
            &other.user,
        ) && self.strict_host_key_checking == other.strict_host_key_checking
    }
}

impl vstd::std_specs::cmp::PartialEqSpecImpl for SshParams {
    open spec fn obeys_eq_spec() -> bool {
        true
    }

    open spec fn eq_spec(&self, other: &SshParams) -> bool {
        self@ == other@
    }
}

impl Default for SshParams {
    /// An empty host, no port, no identity, no user, and the host-key
    /// check switched on.
    fn default() -> (params: SshParams)
        ensures
            params@ == (SshParamsView {
                address: Endpoint { host: Seq::empty(), port: None },
                identity: None,
                user: None,
                strict_host_key_checking: true,
            }),
    {
        SshParams {
            address: Address::default(),
            identity: None,
            user: None,
            strict_host_key_checking: true,
        }
    }
}

impl SshParams {
    /// The token that names where to connect to.
    fn target(&self) -> (token: String)
        ensures
            token@ == target_token(self@.user, self@.address.host),
    {
        if let Some(user) = &self.user {
            if !user.as_str().is_empty() {
                let mut token = user.clone();
                token.append("@");
                token.append(self.address.host.as_str());
                proof {
                    reveal_strlit("@");
                    assert("@"@ =~= seq!['@']);
                }
                return token;
            }
        }
        self.address.host.clone()
    }

    /// Create a full SSH command: the argument vector that runs `args` on
    /// the target, program name first.
    ///
    /// No token is quoted or escaped: the vector is meant for starting the
    /// program directly, not for a shell.
    pub fn command(&self, args: &[&str]) -> (output: Vec<String>)
        ensures
            texts(output@) == command_tokens(self@, arg_texts(args@)),
    {
        let mut output: Vec<String> = Vec::new();
        assert(texts(output@) =~= Seq::<Seq<char>>::empty());
        push_token(&mut output, "ssh".to_owned());

        if !self.strict_host_key_checking {
            push_token(&mut output, "-oStrictHostKeyChecking=no".to_owned());
            push_token(&mut output, "-oUserKnownHostsFile=/dev/null".to_owned());
        }
        push_token(&mut output, "-oBatchMode=yes".to_owned());

        if let Some(identity) = &self.identity {
            push_token(&mut output, "-i".to_owned());
            push_token(&mut output, identity.clone());
        }
        if let Some(port) = self.address.port {
            push_token(&mut output, "-p".to_owned());
            push_token(&mut output, u16_to_string(port));
        }
        push_token(&mut output, self.target());
        assert(texts(output@) =~= connection_tokens(self@));

        for i in 0..args.len()
            invariant
                texts(output@) == connection_tokens(self@) + arg_texts(args@).take(i as int),
        {
            push_token(&mut output, args[i].to_owned());
            assert(arg_texts(args@).take(i + 1) =~= arg_texts(args@).take(i as int).push(
                args@[i as int]@,
            ));
        }
        assert(arg_texts(args@).take(args@.len() as int) =~= arg_texts(args@));
        output
    }
}

/// With the host-key check switched on the two options that switch it
/// off are left out, and nothing else changes: switching it off puts
/// them right behind the program name.
pub proof fn strict_checking_omits_host_key_options(params: SshParamsView, args: Seq<Seq<char>>)
    ensures
        ({
            let strict = command_tokens(
                SshParamsView { strict_host_key_checking: true, ..params },
                args,
            );
            let lax = command_tokens(
                SshParamsView { strict_host_key_checking: false, ..params },
                args,
            );
            &&& strict[0] == "ssh"@
            &&& strict[1] == "-oBatchMode=yes"@
            &&& lax == strict.take(1) + seq![
                "-oStrictHostKeyChecking=no"@,
                "-oUserKnownHostsFile=/dev/null"@,
            ] + strict.skip(1)
        }),
{
    let strict = command_tokens(SshParamsView { strict_host_key_checking: true, ..params }, args);
    let lax = command_tokens(SshParamsView { strict_host_key_checking: false, ..params }, args);
    assert(lax =~= strict.take(1) + seq![
        "-oStrictHostKeyChecking=no"@,
        "-oUserKnownHostsFile=/dev/null"@,
    ] + strict.skip(1));
}

/// Without a port neither `-p` nor a port number is there, and nothing
/// else changes: with a port the two tokens stand right in front of the
/// target.
pub proof fn missing_port_omits_port_tokens(
    params: SshParamsView,
    port: u16,
    args: Seq<Seq<char>>,
)
    ensures
        ({
            let without = command_tokens(
                SshParamsView { address: Endpoint { port: None, ..params.address }, ..params },
                args,
            );
            let with = command_tokens(
                SshParamsView {
                    address: Endpoint { port: Some(port), ..params.address },
                    ..params
                },
                args,
            );
            let target = target_index(without, args);
            &&& without == seq!["ssh"@] + host_key_tokens(params.strict_host_key_checking) + seq![
                "-oBatchMode=yes"@,
            ] + identity_tokens(params.identity) + seq![
                target_token(params.user, params.address.host),
            ] + args
            &&& with == without.take(target) + seq!["-p"@, decimal_text(port as nat)]
                + without.skip(target)
        }),
{
    let without = command_tokens(
        SshParamsView { address: Endpoint { port: None, ..params.address }, ..params },
        args,
    );
    let with = command_tokens(
        SshParamsView { address: Endpoint { port: Some(port), ..params.address }, ..params },
        args,
    );
    let target = target_index(without, args);
    assert(without =~= seq!["ssh"@] + host_key_tokens(params.strict_host_key_checking) + seq![
        "-oBatchMode=yes"@,
    ] + identity_tokens(params.identity) + seq![target_token(params.user, params.address.host)]
        + args);
    assert(with =~= without.take(target) + seq!["-p"@, decimal_text(port as nat)] + without.skip(
        target,
    ));
}

/// Without a user, or with one whose name is empty, the target is the
/// host alone; with a user it is the user, `@` and the host. Either way
/// it is the last token before the remote command.
pub proof fn target_stands_before_args(params: SshParamsView, args: Seq<Seq<char>>)
    ensures
        ({
            let tokens = command_tokens(params, args);
            let target = tokens[target_index(tokens, args)];
            &&& tokens.skip(target_index(tokens, args) + 1) == args
            &&& params.user is None ==> target == params.address.host
            &&& params.user matches Some(user) ==> target == if user.len() == 0 {
                params.address.host
            } else {
                user + seq!['@'] + params.address.host
            }
        }),
{
    let tokens = command_tokens(params, args);
    assert(tokens.skip(target_index(tokens, args) + 1) =~= args);
}

/// Two argument vectors built for the same parameters and the same
/// remote command hold the same tokens.
pub proof fn command_is_deterministic(
    params: SshParams,
    args: Seq<&str>,
    first: Seq<String>,
    second: Seq<String>,
)
    requires
        texts(first) == command_tokens(params@, arg_texts(args)),
        texts(second) == command_tokens(params@, arg_texts(args)),
    ensures
        first.len() == second.len(),
        forall|i: int| 0 <= i < first.len() ==> first[i]@ == second[i]@,
{
    assert(texts(first).len() == first.len());
    assert(texts(second).len() == second.len());
    assert forall|i: int| 0 <= i < first.len() implies first[i]@ == second[i]@ by {
        assert(texts(first)[i] == texts(second)[i]);
    }
}

} // verus!
