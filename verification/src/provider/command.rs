//! The arguments with which tunnel programs are started.
use vstd::prelude::*;

use crate::decimal;
use crate::provider::startup::TunnelProgram;
use crate::text;
use crate::weburl;

verus! {

/// Where Pinggy takes connections.
pub const PINGGY_HOST: &'static str = "free.pinggy.io";

pub const PINGGY_PORT: u16 = 443;

/// Where Serveo takes connections.
pub const SERVEO_HOST: &'static str = "serveo.net";

pub const SERVEO_PORT: u16 = 22;

/// The arguments of cloudflared for a tunnel to a local URL.
pub fn cloudflared_args(local_url: &str) -> (res: Vec<String>)
    ensures
        text::views(res@) == seq!["tunnel"@, "--no-autoupdate"@, "--url"@, local_url@],
{
    let mut args: Vec<String> = Vec::new();
    args.push("tunnel".to_string());
    args.push("--no-autoupdate".to_string());
    args.push("--url".to_string());
    args.push(local_url.to_string());
    assert(text::views(args@) =~= seq!["tunnel"@, "--no-autoupdate"@, "--url"@, local_url@]);
    args
}

/// What a tunnel over SSH leads to: the remote port, and the host and the port of a local URL.
pub open spec fn forward_text(remote_port: u16, host: Seq<char>, port: u16) -> Seq<char> {
    decimal::decimal(remote_port as nat) + ":"@ + host + ":"@ + decimal::decimal(port as nat)
}

/// The arguments of ssh for a tunnel of Pinggy.
pub open spec fn pinggy_args_for(host: Seq<char>, port: u16) -> Seq<Seq<char>> {
    seq![
        "-T"@,
        "-o"@,
        "BatchMode=yes"@,
        "-o"@,
        "ExitOnForwardFailure=yes"@,
        "-o"@,
        "StrictHostKeyChecking=no"@,
        "-o"@,
        "UserKnownHostsFile=/dev/null"@,
        "-o"@,
        "ConnectTimeout=15"@,
        "-o"@,
        "ServerAliveInterval=30"@,
        "-p"@,
        decimal::decimal(PINGGY_PORT as nat),
        "-R"@,
        forward_text(0, host, port),
        PINGGY_HOST@,
    ]
}

/// The arguments of ssh for any tunnel.
pub open spec fn ssh_args_for(batch_mode: bool) -> Seq<Seq<char>> {
    let args = seq![
        "-T"@,
        "-o"@,
        "ExitOnForwardFailure=yes"@,
        "-o"@,
        "StrictHostKeyChecking=no"@,
        "-o"@,
        "UserKnownHostsFile=/dev/null"@,
        "-o"@,
        "ConnectTimeout=15"@,
        "-o"@,
        "ServerAliveInterval=30"@,
    ];
    if batch_mode {
        args + seq!["-o"@, "BatchMode=yes"@]
    } else {
        args
    }
}

/// The arguments of ssh for a tunnel of Serveo.
pub open spec fn serveo_args_for(host: Seq<char>, port: u16) -> Seq<Seq<char>> {
    ssh_args_for(false) + seq![
        "-o"@,
        "PreferredAuthentications=keyboard-interactive"@,
        "-o"@,
        "KbdInteractiveAuthentication=yes"@,
        "-o"@,
        "PubkeyAuthentication=no"@,
        "-o"@,
        "IdentityAgent=none"@,
        "-p"@,
        decimal::decimal(SERVEO_PORT as nat),
        "-R"@,
        forward_text(80, host, port),
        SERVEO_HOST@,
    ]
}

fn show_forward(remote_port: u16, host: &str, port: u16) -> (res: String)
    ensures
        res@ == forward_text(remote_port, host@, port),
{
    let mut out = decimal::format_u64(remote_port as u64);
    out.append(":");
    out.append(host);
    out.append(":");
    out.append(decimal::format_u64(port as u64).as_str());
    out
}

fn push_option(args: &mut Vec<String>, flag: &str, value: &str)
    ensures
        text::views(final(args)@) == text::views(old(args)@) + seq![flag@, value@],
{
    let ghost before = args@;
    args.push(flag.to_string());
    args.push(value.to_string());
    assert(text::views(args@) =~= text::views(before) + seq![flag@, value@]);
}

/// The arguments of ssh for any tunnel.
pub fn ssh_tunnel_args(batch_mode: bool) -> (res: Vec<String>)
    ensures
        text::views(res@) == ssh_args_for(batch_mode),
{
    let mut args: Vec<String> = Vec::new();
    args.push("-T".to_string());
    push_option(&mut args, "-o", "ExitOnForwardFailure=yes");
    push_option(&mut args, "-o", "StrictHostKeyChecking=no");
    push_option(&mut args, "-o", "UserKnownHostsFile=/dev/null");
    push_option(&mut args, "-o", "ConnectTimeout=15");
    push_option(&mut args, "-o", "ServerAliveInterval=30");
    assert(text::views(args@) =~= ssh_args_for(false));
    if batch_mode {
        push_option(&mut args, "-o", "BatchMode=yes");
    }
    args
}

/// The host and the port of a local URL for a tunnel over SSH, or why there are none.
pub open spec fn origin_of(program: TunnelProgram, local_url: Seq<char>) -> Result<
    (Seq<char>, u16),
    Seq<char>,
> {
    match weburl::url_parts(local_url) {
        Err(_) => Err("invalid local origin URL for "@ + program.service()),
        Ok((_, None, _, _)) => Err(program.service() + " requires a host in the local origin URL"@),
        Ok((_, Some(_), None, _)) => Err(
            program.service() + " requires a port in the local origin URL"@,
        ),
        Ok((_, Some(host), Some(port), _)) => Ok((host, port)),
    }
}

fn read_origin(program: TunnelProgram, local_url: &str) -> (res: Result<(String, u16), String>)
    ensures
        match res {
            Ok((host, port)) => origin_of(program, local_url@) == Ok::<
                (Seq<char>, u16),
                Seq<char>,
            >((host@, port)),
            Err(error) => origin_of(program, local_url@) == Err::<(Seq<char>, u16), Seq<char>>(
                error@,
            ),
        },
{
    let parts = match weburl::read_url(local_url) {
        Ok(parts) => parts,
        Err(_) => {
            let mut error = "invalid local origin URL for ".to_string();
            error.append(program.service_name());
            return Err(error);
        },
    };
    let host = match parts.host {
        Some(host) => host,
        None => {
            let mut error = program.service_name().to_string();
            error.append(" requires a host in the local origin URL");
            return Err(error);
        },
    };
    match parts.port {
        Some(port) => Ok((host, port)),
        None => {
            let mut error = program.service_name().to_string();
            error.append(" requires a port in the local origin URL");
            Err(error)
        },
    }
}

/// The arguments of ssh for a tunnel of Pinggy to the host and port.
pub fn pinggy_args_to(host: &str, port: u16) -> (res: Vec<String>)
    ensures
        text::views(res@) == pinggy_args_for(host@, port),
{
    let mut args: Vec<String> = Vec::new();
    args.push("-T".to_string());
    push_option(&mut args, "-o", "BatchMode=yes");
    push_option(&mut args, "-o", "ExitOnForwardFailure=yes");
    push_option(&mut args, "-o", "StrictHostKeyChecking=no");
    push_option(&mut args, "-o", "UserKnownHostsFile=/dev/null");
    push_option(&mut args, "-o", "ConnectTimeout=15");
    push_option(&mut args, "-o", "ServerAliveInterval=30");
    push_option(&mut args, "-p", decimal::format_u64(PINGGY_PORT as u64).as_str());
    push_option(&mut args, "-R", show_forward(0, host, port).as_str());
    let ghost before = args@;
    args.push(PINGGY_HOST.to_string());
    assert(text::views(args@) =~= text::views(before).push(PINGGY_HOST@));
    assert(text::views(args@) =~= pinggy_args_for(host@, port));
    args
}

/// The arguments of ssh for a tunnel of Serveo to the host and port.
pub fn serveo_args_to(host: &str, port: u16) -> (res: Vec<String>)
    ensures
        text::views(res@) == serveo_args_for(host@, port),
{
    let mut args = ssh_tunnel_args(false);
    push_option(&mut args, "-o", "PreferredAuthentications=keyboard-interactive");
    push_option(&mut args, "-o", "KbdInteractiveAuthentication=yes");
    push_option(&mut args, "-o", "PubkeyAuthentication=no");
    push_option(&mut args, "-o", "IdentityAgent=none");
    push_option(&mut args, "-p", decimal::format_u64(SERVEO_PORT as u64).as_str());
    push_option(&mut args, "-R", show_forward(80, host, port).as_str());
    let ghost before = args@;
    args.push(SERVEO_HOST.to_string());
    assert(text::views(args@) =~= text::views(before).push(SERVEO_HOST@));
    assert(text::views(args@) =~= serveo_args_for(host@, port));
    args
}

/// The arguments with which the program is started for a tunnel to a local URL, or why it
/// cannot be.
pub open spec fn args_for(program: TunnelProgram, local_url: Seq<char>) -> Result<
    Seq<Seq<char>>,
    Seq<char>,
> {
    match program {
        TunnelProgram::Cloudflared => Ok(
            seq!["tunnel"@, "--no-autoupdate"@, "--url"@, local_url],
        ),
        TunnelProgram::Pinggy => match origin_of(program, local_url) {
            Ok((host, port)) => Ok(pinggy_args_for(host, port)),
            Err(error) => Err(error),
        },
        TunnelProgram::Serveo => match origin_of(program, local_url) {
            Ok((host, port)) => Ok(serveo_args_for(host, port)),
            Err(error) => Err(error),
        },
    }
}

/// The arguments with which the program is started for a tunnel to a local URL.
pub fn tunnel_args(program: TunnelProgram, local_url: &str) -> (res: Result<Vec<String>, String>)
    ensures
        match res {
            Ok(args) => args_for(program, local_url@) == Ok::<Seq<Seq<char>>, Seq<char>>(
                text::views(args@),
            ),
            Err(error) => args_for(program, local_url@) == Err::<Seq<Seq<char>>, Seq<char>>(error@),
        },
{
    match program {
        TunnelProgram::Cloudflared => Ok(cloudflared_args(local_url)),
        TunnelProgram::Pinggy => match read_origin(program, local_url) {
            Ok((host, port)) => Ok(pinggy_args_to(host.as_str(), port)),
            Err(error) => Err(error),
        },
        TunnelProgram::Serveo => match read_origin(program, local_url) {
            Ok((host, port)) => Ok(serveo_args_to(host.as_str(), port)),
            Err(error) => Err(error),
        },
    }
}

} // verus!
