//! What is promised of the totals of an upgrade.
use crate::resolver::ResolvedPackage;
use crate::transaction::TotalsView;
use crate::transaction;
use crate::upgrade;
use vstd::prelude::*;
use vstd::string::*;

verus! {

/// No update makes no total.
pub proof fn nothing_totals_nothing(us: Seq<ResolvedPackage>)
    ensures
        ({
            let t = transaction::update_totals(us, 0);
            &&& t.download == 0 && t.installed == 0 && t.delta == 0
            &&& t.custom == 0 && t.default == 0 && t.pacman == 0 && t.aur == 0
        }),
{
}

/// The total of one update: the sizes of its candidate, what it adds to the disk, and one
/// package by its rule and one by its program. Without a candidate it adds nothing.
pub proof fn one_update_totals_itself(u: ResolvedPackage)
    ensures
        ({
            let t = transaction::update_totals(seq![u], 1);
            match u.candidate {
                Some(c) => {
                    &&& t.download == c.csize
                    &&& t.installed == c.isize
                    &&& u.net_delta matches Some(d) ==> t.delta == d
                    &&& u.net_delta is None ==> t.delta == 0
                    &&& t.custom + t.default == 1
                    &&& t.custom == 1 <==> u.state@ == "custom"@
                    &&& t.pacman + t.aur == 1
                    &&& t.aur == 1 <==> c.is_aur
                },
                None => t == transaction::update_totals(seq![u], 0),
            }
        }),
{
    assert(transaction::update_totals(seq![u], 0).download == 0);
    assert(seq![u][0] == u);
}

proof fn totals_of_a_part(a: Seq<ResolvedPackage>, b: Seq<ResolvedPackage>, n: int)
    requires
        0 <= n <= a.len(),
    ensures
        transaction::update_totals(a + b, n) == transaction::update_totals(a, n),
    decreases n,
{
    if n > 0 {
        totals_of_a_part(a, b, n - 1);
        assert((a + b)[n - 1] == a[n - 1]);
    }
}

/// The totals of two lists of updates add up.
pub proof fn totals_add_up(a: Seq<ResolvedPackage>, b: Seq<ResolvedPackage>, n: int)
    requires
        0 <= n <= b.len(),
    ensures
        ({
            let x = transaction::update_totals(a, a.len() as int);
            let y = transaction::update_totals(b, n);
            transaction::update_totals(a + b, a.len() + n) == (TotalsView {
                download: x.download + y.download,
                installed: x.installed + y.installed,
                delta: x.delta + y.delta,
                custom: x.custom + y.custom,
                default: x.default + y.default,
                pacman: x.pacman + y.pacman,
                aur: x.aur + y.aur,
            })
        }),
    decreases n,
{
    totals_of_a_part(a, b, a.len() as int);
    if n > 0 {
        totals_add_up(a, b, n - 1);
        assert((a + b)[a.len() + n - 1] == b[n - 1]);
    }
}

/// The numbers that are shown are those of the targets that are asked for.
pub proof fn totals_count_the_targets(us: Seq<ResolvedPackage>, n: int)
    requires
        0 <= n <= us.len(),
    ensures
        ({
            let t = transaction::update_totals(us, n);
            &&& t.pacman == upgrade::pacman_upto(us, n).len()
            &&& t.aur == upgrade::aur_upto(us, n).len()
            &&& t.custom + t.default == t.pacman + t.aur
        }),
    decreases n,
{
    if n > 0 {
        totals_count_the_targets(us, n - 1);
    }
}

} // verus!
