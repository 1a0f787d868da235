//! The device listings: which simulators a decoded `simctl` report
//! yields, and which emulator names a captured listing holds. Running
//! the platform tools and decoding their JSON happens outside this
//! crate; the decoded rows and the raw text are handed in as plain
//! values.

use vstd::prelude::*;
use crate::checks::strip_trailing_cr;
use crate::output::{EmulatorListResult, Simulator, SimulatorListResult};
use crate::text::{chars_vec, string_from_chars, trim_spec};

verus! {

/// One device row of a decoded simulator report.
pub struct SimDevice {
    pub name: String,
    pub udid: String,
    pub state: String,
    /// Absent in older report formats; an absent flag counts as
    /// available.
    pub is_available: Option<bool>,
}

/// One runtime of a decoded simulator report, with its devices.
pub struct SimRuntime {
    pub runtime: String,
    pub devices: Vec<SimDevice>,
}

/// The device is listed: its availability flag is set, or absent.
pub open spec fn device_included(d: SimDevice) -> bool {
    match d.is_available {
        Option::Some(b) => b,
        Option::None => true,
    }
}

/// The runtime name mentions iOS.
pub open spec fn mentions_ios(s: Seq<char>) -> bool {
    exists|i: int|
        0 <= i && i + 3 <= s.len() && #[trigger] s[i] == 'i' && s[i + 1] == 'O' && s[i + 2] == 'S'
}

/// Whether a runtime name contains `iOS`.
pub fn contains_ios(s: &str) -> (r: bool)
    ensures
        r == mentions_ios(s@),
{
    let v = chars_vec(s);
    if v.len() < 3 {
        return false;
    }
    let mut i: usize = 0;
    while i < v.len() - 2
        invariant
            0 <= i,
            i <= v@.len(),
            v@.len() >= 3,
            v@ == s@,
            forall|j: int|
                0 <= j && j < i ==> !(#[trigger] s@[j] == 'i' && s@[j + 1] == 'O' && s@[j + 2]
                    == 'S'),
        decreases v@.len() - i,
    {
        if v[i] == 'i' && v[i + 1] == 'O' && v[i + 2] == 'S' {
            return true;
        }
        i += 1;
    }
    proof {
        if mentions_ios(s@) {
            let k = choose|k: int|
                0 <= k && k + 3 <= s@.len() && #[trigger] s@[k] == 'i' && s@[k + 1] == 'O' && s@[k
                    + 2] == 'S';
            assert(k < i);
        }
    }
    false
}

/// The simulators one runtime's devices contribute, in order.
pub open spec fn sims_of_devices(runtime: String, devs: Seq<SimDevice>) -> Seq<Simulator>
    decreases devs.len(),
{
    if devs.len() == 0 {
        Seq::empty()
    } else {
        sims_of_devices(runtime, devs.drop_last()) + (if device_included(devs.last()) {
            seq![
                Simulator {
                    name: devs.last().name,
                    udid: devs.last().udid,
                    state: devs.last().state,
                    runtime: runtime,
                },
            ]
        } else {
            Seq::empty()
        })
    }
}

/// The simulators a whole report yields: the available devices of
/// every runtime that mentions iOS, in report order.
pub open spec fn sims_of(rs: Seq<SimRuntime>) -> Seq<Simulator>
    decreases rs.len(),
{
    if rs.len() == 0 {
        Seq::empty()
    } else {
        sims_of(rs.drop_last()) + (if mentions_ios(rs.last().runtime@) {
            sims_of_devices(rs.last().runtime, rs.last().devices@)
        } else {
            Seq::empty()
        })
    }
}

/// Turns a decoded simulator report into the listing the tool shows:
/// only runtimes that mention iOS, only devices not marked
/// unavailable, each tagged with its runtime.
pub fn parse_simulators(runtimes: &Vec<SimRuntime>) -> (r: SimulatorListResult)
    ensures
        r.simulators@ == sims_of(runtimes@),
{
    let mut out: Vec<Simulator> = Vec::new();
    let mut i: usize = 0;
    proof {
        assert(runtimes@.take(0) =~= Seq::<SimRuntime>::empty());
    }
    while i < runtimes.len()
        invariant
            0 <= i <= runtimes@.len(),
            out@ == sims_of(runtimes@.take(i as int)),
        decreases runtimes@.len() - i,
    {
        let rt = &runtimes[i];
        let ghost out0 = out@;
        proof {
            assert(runtimes@.take(i as int + 1).drop_last() =~= runtimes@.take(i as int));
            assert(runtimes@.take(i as int + 1).last() == runtimes@[i as int]);
        }
        if contains_ios(rt.runtime.as_str()) {
            let mut j: usize = 0;
            proof {
                assert(rt.devices@.take(0) =~= Seq::<SimDevice>::empty());
                assert(out@ =~= out0 + sims_of_devices(rt.runtime, rt.devices@.take(0)));
            }
            while j < rt.devices.len()
                invariant
                    0 <= j <= rt.devices@.len(),
                    rt == runtimes@[i as int],
                    0 <= i < runtimes@.len(),
                    out@ == out0 + sims_of_devices(rt.runtime, rt.devices@.take(j as int)),
                decreases rt.devices@.len() - j,
            {
                let d = &rt.devices[j];
                proof {
                    assert(rt.devices@.take(j as int + 1).drop_last() =~= rt.devices@.take(
                        j as int,
                    ));
                    assert(rt.devices@.take(j as int + 1).last() == rt.devices@[j as int]);
                }
                let included = match d.is_available {
                    Option::Some(b) => b,
                    Option::None => true,
                };
                if included {
                    out.push(
                        Simulator {
                            name: d.name.clone(),
                            udid: d.udid.clone(),
                            state: d.state.clone(),
                            runtime: rt.runtime.clone(),
                        },
                    );
                    proof {
                        assert(out@.last() == Simulator {
                            name: d.name,
                            udid: d.udid,
                            state: d.state,
                            runtime: rt.runtime,
                        });
                        assert(out@ =~= out0 + sims_of_devices(
                            rt.runtime,
                            rt.devices@.take(j as int + 1),
                        ));
                    }
                } else {
                    proof {
                        assert(out@ =~= out0 + sims_of_devices(
                            rt.runtime,
                            rt.devices@.take(j as int + 1),
                        ));
                    }
                }
                j += 1;
            }
            proof {
                assert(rt.devices@.take(rt.devices@.len() as int) =~= rt.devices@);
                assert(out@ =~= sims_of(runtimes@.take(i as int + 1)));
            }
        } else {
            proof {
                assert(out@ =~= sims_of(runtimes@.take(i as int + 1)));
            }
        }
        i += 1;
    }
    proof {
        assert(runtimes@.take(runtimes@.len() as int) =~= runtimes@);
    }
    SimulatorListResult { simulators: out }
}

/// What one raw line contributes to the emulator listing: itself,
/// its line-ending carriage return removed, unless blank.
pub open spec fn emu_line_out(raw: Seq<char>) -> Seq<Seq<char>> {
    let l = strip_trailing_cr(raw);
    if trim_spec(l).len() > 0 {
        seq![l]
    } else {
        Seq::empty()
    }
}

/// The non-blank lines of the rest of a captured listing, with `cur`
/// the line read so far.
pub open spec fn emu_lines(s: Seq<char>, cur: Seq<char>) -> Seq<Seq<char>>
    decreases s.len(),
{
    if s.len() == 0 {
        emu_line_out(cur)
    } else if s[0] == '\n' {
        emu_line_out(cur) + emu_lines(s.drop_first(), Seq::empty())
    } else {
        emu_lines(s.drop_first(), cur.push(s[0]))
    }
}

/// The emulator names in a captured listing: its non-blank lines, in
/// order.
pub open spec fn emulators_spec(s: Seq<char>) -> Seq<Seq<char>> {
    emu_lines(s, Seq::empty())
}

/// The character sequences a list of names holds.
pub open spec fn name_views(names: Seq<String>) -> Seq<Seq<char>> {
    names.map_values(|n: String| n@)
}

/// Turns the captured output of the emulator listing into the names
/// it holds: one per non-blank line, kept verbatim.
pub fn parse_emulators(text: &str) -> (r: EmulatorListResult)
    ensures
        name_views(r.emulators@) == emulators_spec(text@),
{
    let v = chars_vec(text);
    let mut out: Vec<String> = Vec::new();
    let mut cur: Vec<char> = Vec::new();
    let mut i: usize = 0;
    proof {
        assert(v@.skip(0) =~= v@);
        assert(name_views(out@) =~= Seq::<Seq<char>>::empty());
    }
    while i < v.len()
        invariant
            0 <= i <= v@.len(),
            v@ == text@,
            emulators_spec(text@) == name_views(out@) + emu_lines(v@.skip(i as int), cur@),
        decreases v@.len() - i,
    {
        let ghost t = v@.skip(i as int);
        let ghost out0 = name_views(out@);
        let ghost cur0 = cur@;
        proof {
            assert(t[0] == v@[i as int]);
            assert(t.drop_first() =~= v@.skip(i as int + 1));
        }
        let c = v[i];
        if c == '\n' {
            let line = if cur.len() > 0 && cur[cur.len() - 1] == '\r' {
                let mut l = cur;
                let _dropped = l.pop();
                proof {
                    assert(l@ =~= cur0.drop_last());
                    assert(strip_trailing_cr(cur0) == cur0.drop_last());
                }
                l
            } else {
                proof {
                    assert(strip_trailing_cr(cur0) == cur0);
                }
                cur
            };
            let trimmed = crate::text::trim_chars(&line);
            if trimmed.len() > 0 {
                out.push(string_from_chars(&line));
                proof {
                    assert(name_views(out@) =~= out0.push(strip_trailing_cr(cur0)));
                    assert(emu_line_out(cur0) == seq![strip_trailing_cr(cur0)]);
                    assert(out0 + (seq![strip_trailing_cr(cur0)] + emu_lines(
                        t.drop_first(),
                        Seq::empty(),
                    )) =~= name_views(out@) + emu_lines(t.drop_first(), Seq::empty()));
                }
            } else {
                proof {
                    assert(emu_line_out(cur0) =~= Seq::<Seq<char>>::empty());
                    assert(out0 + (Seq::<Seq<char>>::empty() + emu_lines(
                        t.drop_first(),
                        Seq::empty(),
                    )) =~= out0 + emu_lines(t.drop_first(), Seq::empty()));
                }
            }
            cur = Vec::new();
        } else {
            cur.push(c);
            proof {
                assert(emu_lines(t, cur0) == emu_lines(t.drop_first(), cur0.push(c)));
            }
        }
        i += 1;
    }
    proof {
        assert(v@.skip(i as int) =~= Seq::<char>::empty());
    }
    let ghost cur_end = cur@;
    let line = if cur.len() > 0 && cur[cur.len() - 1] == '\r' {
        let mut l = cur;
        let _dropped = l.pop();
        proof {
            assert(l@ =~= cur_end.drop_last());
            assert(strip_trailing_cr(cur_end) == cur_end.drop_last());
        }
        l
    } else {
        proof {
            assert(strip_trailing_cr(cur_end) == cur_end);
        }
        cur
    };
    let trimmed = crate::text::trim_chars(&line);
    if trimmed.len() > 0 {
        let ghost out0 = name_views(out@);
        out.push(string_from_chars(&line));
        proof {
            assert(name_views(out@) =~= out0.push(line@));
            assert(emu_line_out(cur_end) == seq![strip_trailing_cr(cur_end)]);
            assert(out0 + seq![line@] =~= out0.push(line@));
        }
    } else {
        proof {
            assert(emu_line_out(cur_end) =~= Seq::<Seq<char>>::empty());
            assert(name_views(out@) + Seq::<Seq<char>>::empty() =~= name_views(out@));
        }
    }
    EmulatorListResult { emulators: out }
}

} // verus!
