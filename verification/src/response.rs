use crate::types::ServerStatus;
use vstd::prelude::*;
use vstd::string::StringExecFns;

verus! {

/// The decimal digit character for one digit value.
pub open spec fn digit_char(d: int) -> char {
    if d == 0 {
        '0'
    } else if d == 1 {
        '1'
    } else if d == 2 {
        '2'
    } else if d == 3 {
        '3'
    } else if d == 4 {
        '4'
    } else if d == 5 {
        '5'
    } else if d == 6 {
        '6'
    } else if d == 7 {
        '7'
    } else if d == 8 {
        '8'
    } else {
        '9'
    }
}

/// The decimal rendering of a number, most significant digit first.
pub open spec fn dec_str(n: int) -> Seq<char>
    recommends
        n >= 0,
    decreases n,
{
    if n < 10 {
        seq![digit_char(n)]
    } else {
        dec_str(n / 10).push(digit_char(n % 10))
    }
}

fn digit_str(d: usize) -> (s: &'static str)
    requires
        d < 10,
    ensures
        s@ == seq![digit_char(d as int)],
{
    proof {
        reveal_strlit("0");
        reveal_strlit("1");
        reveal_strlit("2");
        reveal_strlit("3");
        reveal_strlit("4");
        reveal_strlit("5");
        reveal_strlit("6");
        reveal_strlit("7");
        reveal_strlit("8");
        reveal_strlit("9");
    }
    match d {
        0 => "0",
        1 => "1",
        2 => "2",
        3 => "3",
        4 => "4",
        5 => "5",
        6 => "6",
        7 => "7",
        8 => "8",
        _ => "9",
    }
}

/// The decimal rendering of a number, as executable code.
pub fn format_usize(n: usize) -> (s: String)
    ensures
        s@ == dec_str(n as int),
    decreases n,
{
    if n < 10 {
        digit_str(n).to_owned()
    } else {
        let mut s = format_usize(n / 10);
        s.append(digit_str(n % 10));
        proof {
            assert(s@ =~= dec_str(n as int));
        }
        s
    }
}

/// The phase's display name.
pub open spec fn spec_status_name(s: ServerStatus) -> Seq<char> {
    match s {
        ServerStatus::ReadyForJoining => "ReadyForJoining"@,
        ServerStatus::ReadyForInputs => "ReadyForInputs"@,
        ServerStatus::ReadyForRunning => "ReadyForRunning"@,
        ServerStatus::RunningFhe => "RunningFhe"@,
        ServerStatus::CompletedFhe => "CompletedFhe"@,
    }
}

/// The phase's display name, as executable code.
pub fn status_name(s: &ServerStatus) -> (r: &'static str)
    ensures
        r@ == spec_status_name(*s),
{
    match s {
        ServerStatus::ReadyForJoining => "ReadyForJoining",
        ServerStatus::ReadyForInputs => "ReadyForInputs",
        ServerStatus::ReadyForRunning => "ReadyForRunning",
        ServerStatus::RunningFhe => "RunningFhe",
        ServerStatus::CompletedFhe => "CompletedFhe",
    }
}

/// A flat request answer: whether the operation succeeded, and a message.
#[derive(Debug)]
pub struct ServerResponse {
    pub ok: bool,
    pub msg: String,
}

impl ServerResponse {
    pub fn ok(msg: &str) -> (r: Self)
        ensures
            r.ok == true,
            r.msg@ == msg@,
    {
        ServerResponse { ok: true, msg: msg.to_owned() }
    }

    pub fn err(msg: &str) -> (r: Self)
        ensures
            r.ok == false,
            r.msg@ == msg@,
    {
        ServerResponse { ok: false, msg: msg.to_owned() }
    }

    /// Success answer carrying the user's id.
    pub fn ok_user(user_id: usize) -> (r: Self)
        ensures
            r.ok == true,
            r.msg@ == dec_str(user_id as int),
    {
        let msg = format_usize(user_id);
        ServerResponse { ok: true, msg }
    }

    pub fn err_unregistered_user(user_id: usize) -> (r: Self)
        ensures
            r.ok == false,
            r.msg@ == "User "@ + dec_str(user_id as int) + " hasn't registered yet"@,
    {
        let mut msg = String::from_str("User ");
        msg.append(format_usize(user_id).as_str());
        msg.append(" hasn't registered yet");
        ServerResponse { ok: false, msg }
    }

    pub fn err_unregistered_users(want: usize, got: usize) -> (r: Self)
        ensures
            r.ok == false,
            r.msg@ == "Some users haven't registered yet. Want "@ + dec_str(want as int) + " Got "@
                + dec_str(got as int),
    {
        let mut msg = String::from_str("Some users haven't registered yet. Want ");
        msg.append(format_usize(want).as_str());
        msg.append(" Got ");
        msg.append(format_usize(got).as_str());
        ServerResponse { ok: false, msg }
    }

    pub fn err_already_concluded(status: &ServerStatus) -> (r: Self)
        ensures
            r.ok == false,
            r.msg@ == "Registration already concluded, status: "@ + spec_status_name(*status),
    {
        let mut msg = String::from_str("Registration already concluded, status: ");
        msg.append(status_name(status));
        ServerResponse { ok: false, msg }
    }

    pub fn err_not_ready_for_run(status: &ServerStatus) -> (r: Self)
        ensures
            r.ok == false,
            r.msg@ == "Not ready for computation, status: "@ + spec_status_name(*status),
    {
        let mut msg = String::from_str("Not ready for computation, status: ");
        msg.append(status_name(status));
        ServerResponse { ok: false, msg }
    }

    pub fn err_run_in_progress() -> (r: Self)
        ensures
            r.ok == false,
            r.msg@ == "Fhe computation already running"@,
    {
        Self::err("Fhe computation already running")
    }

    pub fn ok_run_already_end() -> (r: Self)
        ensures
            r.ok == true,
            r.msg@ == "Fhe computation completed"@,
    {
        Self::ok("Fhe computation completed")
    }

    pub fn err_missing_submission(user_id: usize) -> (r: Self)
        ensures
            r.ok == false,
            r.msg@ == "can't find cipher submission from user "@ + dec_str(user_id as int),
    {
        let mut msg = String::from_str("can't find cipher submission from user ");
        msg.append(format_usize(user_id).as_str());
        ServerResponse { ok: false, msg }
    }

    pub fn err_output_not_ready() -> (r: Self)
        ensures
            r.ok == false,
            r.msg@ == "FHE output not ready yet"@,
    {
        Self::err("FHE output not ready yet")
    }

    pub fn err_decryption_share_not_found(output_id: usize, user_id: usize) -> (r: Self)
        ensures
            r.ok == false,
            r.msg@ == "Decryption share of "@ + dec_str(output_id as int) + " from user "@
                + dec_str(user_id as int) + " not found"@,
    {
        let mut msg = String::from_str("Decryption share of ");
        msg.append(format_usize(output_id).as_str());
        msg.append(" from user ");
        msg.append(format_usize(user_id).as_str());
        msg.append(" not found");
        ServerResponse { ok: false, msg }
    }
}

} // verus!
