//! Brightness through the screen interface of the desktop session's power
//! service, which speaks percent natively. The caller sends the calls this
//! module frames and hands back the replies.
use vstd::prelude::*;

verus! {

/// Why a call to the power service failed.
#[derive(Debug, Clone, PartialEq, Eq)]
pub enum DbusError {
    /// The call failed in transport or at the service: its error name and
    /// message.
    Call(String, String),
    /// The reply did not hold a single unsigned 32-bit integer.
    NoReturn,
}

/// One argument of a reply, as far as this backend tells them apart.
#[derive(Debug, Clone, Copy, PartialEq, Eq, Structural)]
pub enum Arg {
    U32(u32),
    Other,
}

/// A method call to send, with its `u32` arguments.
#[derive(Debug)]
pub struct MethodCall {
    pub destination: &'static str,
    pub path: &'static str,
    pub interface: &'static str,
    pub member: &'static str,
    pub args: Vec<u32>,
}

/// The power service's screen interface.
pub struct DbusBrightness {
    destination: &'static str,
    path: &'static str,
    interface: &'static str,
}

/// The argument that `SetPercentage` carries for `value`: the value held to
/// the range of `u32`.
pub open spec fn percent_arg(value: int) -> u32 {
    if value < 0 {
        0
    } else if value > u32::MAX {
        u32::MAX
    } else {
        value as u32
    }
}

/// The percentage in a `GetPercentage` reply: present only where the reply
/// holds a single `u32`.
pub open spec fn reply_percent(args: Seq<Arg>) -> Option<u32> {
    if args.len() == 1 {
        match args[0] {
            Arg::U32(v) => Some(v),
            Arg::Other => None,
        }
    } else {
        None
    }
}

impl DbusBrightness {
    pub closed spec fn spec_destination(&self) -> Seq<char> {
        self.destination@
    }

    pub closed spec fn spec_path(&self) -> Seq<char> {
        self.path@
    }

    pub closed spec fn spec_interface(&self) -> Seq<char> {
        self.interface@
    }

    /// Whether `call` is addressed to this service's screen interface.
    pub open spec fn addressed(&self, call: &MethodCall) -> bool {
        call.destination@ == self.spec_destination() && call.path@ == self.spec_path()
            && call.interface@ == self.spec_interface()
    }

    /// The backend for the session's settings daemon.
    pub fn new() -> (r: DbusBrightness)
        ensures
            r.spec_destination() == "org.gnome.SettingsDaemon"@,
            r.spec_path() == "/org/gnome/SettingsDaemon/Power"@,
            r.spec_interface() == "org.gnome.SettingsDaemon.Power.Screen"@,
    {
        DbusBrightness {
            destination: "org.gnome.SettingsDaemon",
            path: "/org/gnome/SettingsDaemon/Power",
            interface: "org.gnome.SettingsDaemon.Power.Screen",
        }
    }

    /// The top of the range: the service speaks percent.
    pub fn max(&self) -> (r: i64)
        ensures
            r == 100,
    {
        100
    }

    /// The bottom of the range.
    pub fn min(&self) -> (r: i64)
        ensures
            r == 0,
    {
        0
    }

    /// The call that reads the brightness.
    pub fn current_call(&self) -> (r: MethodCall)
        ensures
            self.addressed(&r),
            r.member@ == "GetPercentage"@,
            r.args@.len() == 0,
    {
        MethodCall {
            destination: self.destination,
            path: self.path,
            interface: self.interface,
            member: "GetPercentage",
            args: Vec::new(),
        }
    }

    /// The brightness, from the outcome of the `GetPercentage` call.
    pub fn current(&self, reply: Result<Vec<Arg>, DbusError>) -> (r: Result<i64, DbusError>)
        ensures
            reply is Err ==> r == Err::<i64, DbusError>(reply->Err_0),
            reply is Ok && reply_percent(reply->Ok_0@) is Some ==> r == Ok::<i64, DbusError>(
                reply_percent(reply->Ok_0@)->0 as i64,
            ),
            reply is Ok && reply_percent(reply->Ok_0@) is None ==> r == Err::<i64, DbusError>(
                DbusError::NoReturn,
            ),
    {
        match reply {
            Err(e) => Err(e),
            Ok(args) => {
                if args.len() == 1 {
                    match args[0] {
                        Arg::U32(v) => Ok(v as i64),
                        Arg::Other => Err(DbusError::NoReturn),
                    }
                } else {
                    Err(DbusError::NoReturn)
                }
            },
        }
    }

    /// The call that sets the brightness to `value` percent.
    pub fn set_call(&self, value: i64) -> (r: MethodCall)
        ensures
            self.addressed(&r),
            r.member@ == "SetPercentage"@,
            r.args@ == seq![percent_arg(value as int)],
    {
        let arg: u32 = if value < 0 {
            0
        } else if value > u32::MAX as i64 {
            u32::MAX
        } else {
            value as u32
        };
        MethodCall {
            destination: self.destination,
            path: self.path,
            interface: self.interface,
            member: "SetPercentage",
            args: vec![arg],
        }
    }

    /// The outcome of a `SetPercentage` call: the reply's content is ignored.
    pub fn set(&self, reply: Result<Vec<Arg>, DbusError>) -> (r: Result<(), DbusError>)
        ensures
            reply is Err ==> r == Err::<(), DbusError>(reply->Err_0),
            reply is Ok ==> r is Ok,
    {
        match reply {
            Err(e) => Err(e),
            Ok(_) => Ok(()),
        }
    }
}

} // verus!
