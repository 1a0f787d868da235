//! The tool's command-line options, as plain values, and the platform
//! dispatch they decide. Parsing the command line itself happens
//! outside this crate.

use vstd::prelude::*;

verus! {

/// Run a React Native app on iOS or Android.
pub struct Args {
    /// Run iOS.
    pub ios: bool,
    /// Run Android.
    pub android: bool,
    /// The simulator to launch.
    pub simulator: Option<String>,
    /// Remove and reinstall dependencies first.
    pub clean_install: bool,
}

/// What the platform flags ask for.
pub enum PlatformChoice {
    Ios,
    Android,
    /// Both flags were given; the tool refuses to run both at once.
    Both,
    /// Neither flag was given; the tool only prints its hint.
    Neither,
}

/// Which run the flags select: iOS alone, Android alone, the refused
/// combination of both, or neither.
pub fn platform_choice(args: &Args) -> (r: PlatformChoice)
    ensures
        r is Ios <==> (args.ios && !args.android),
        r is Android <==> (args.android && !args.ios),
        r is Both <==> (args.ios && args.android),
        r is Neither <==> (!args.ios && !args.android),
{
    if args.ios && args.android {
        PlatformChoice::Both
    } else if args.ios {
        PlatformChoice::Ios
    } else if args.android {
        PlatformChoice::Android
    } else {
        PlatformChoice::Neither
    }
}

} // verus!
