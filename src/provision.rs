//! Planning of each binary's download and the report over all of them.
//!
//! Every declared binary gets its own pipeline: build the URL from the
//! pattern, resolve it against the working directory, parse it, then fetch
//! and write. Planning covers the steps up to the parse; a failure there is
//! that binary's outcome and does not touch the others. Once every pipeline
//! has ended, the outcomes, in the order the binaries were declared, make one
//! report.
use vstd::prelude::*;
use url::Url;
use crate::error::Error;
use crate::package_json::{bins_view, keys_unique, Bins};
use crate::resolve::{resolve, resolved};
use crate::url_context::{outcome_view, render, TemplateError, TemplateFault, TemplateValues, UrlContext};
use crate::version::Version;

verus! {

#[verifier::external_type_specification]
#[verifier::external_body]
pub struct ExUrl(Url);

/// Whether the URL parser accepts `s` as an absolute URL.
pub uninterp spec fn parses_as_url(s: Seq<char>) -> bool;

/// The parser's message for a string it refuses.
pub uninterp spec fn url_error_text(s: Seq<char>) -> Seq<char>;

/// Relies on url::Url::parse, with no base URL: it accepts or refuses a
/// string by the string alone, and a refusal is a fieldless `ParseError`
/// whose `Display` text is fixed for each variant.
#[verifier::external_body]
fn parse_url(s: &str) -> (r: Result<Url, String>)
    ensures
        r is Ok <==> parses_as_url(s@),
        r matches Err(m) ==> m@ == url_error_text(s@),
{
    Url::parse(s).map_err(|e| e.to_string())
}

/// The download URL of a binary: the pattern filled in with `c`, then
/// resolved against `cwd`.
pub open spec fn built_url(pattern: Seq<char>, c: TemplateValues, cwd: Seq<char>) -> Result<
    Seq<char>,
    TemplateFault,
> {
    match render(pattern, c) {
        Ok(u) => Ok(resolved(u, cwd)),
        Err(e) => Err(e),
    }
}

/// Fills in `pattern` for one binary and resolves the result against `cwd`.
pub fn make_url(context: &UrlContext, pattern: &str, cwd: &str) -> (r: Result<String, TemplateError>)
    ensures
        outcome_view(r) == built_url(pattern@, context@, cwd@),
{
    match context.subsitute(pattern) {
        Ok(url) => Ok(resolve(url.as_str(), cwd)),
        Err(e) => Err(e),
    }
}

/// One binary's unit of work, ready to fetch.
#[derive(Debug)]
pub struct BinaryTask {
    pub bin: String,
    pub destination: String,
    /// The resolved URL as text.
    pub location: String,
    /// `location`, as the URL parser read it. Its value is opaque to the
    /// proofs: they know only that `location` parses.
    pub url: Url,
}

/// The terminal state of one binary's pipeline.
#[derive(PartialEq, Eq, Debug)]
pub struct Outcome {
    pub bin: String,
    pub result: Result<(), Error>,
}

/// The values that fill in a pattern for binary `bin`.
pub open spec fn values_for(bin: Seq<char>, name: Seq<char>, version: Seq<char>, triple: Seq<char>) -> TemplateValues {
    TemplateValues { bin, name, triple, version }
}

/// `r` is what planning owes for binary `bin` with destination `dest`: a
/// task with the resolved URL where it parses, else the failed outcome of
/// the stage that failed.
pub open spec fn planned_as(
    bin: Seq<char>,
    dest: Seq<char>,
    name: Seq<char>,
    version: Seq<char>,
    pattern: Seq<char>,
    triple: Seq<char>,
    cwd: Seq<char>,
    r: Result<BinaryTask, Outcome>,
) -> bool {
    match built_url(pattern, values_for(bin, name, version, triple), cwd) {
        Err(f) => r matches Err(o) && o.bin@ == bin && (o.result matches Err(Error::Template(t))
            && t@ == f),
        Ok(u) => if parses_as_url(u) {
            r matches Ok(t) && t.bin@ == bin && t.destination@ == dest && t.location@ == u
        } else {
            r matches Err(o) && o.bin@ == bin && (o.result matches Err(Error::UrlParse(m)) && m@
                == url_error_text(u))
        },
    }
}

/// Builds, resolves and parses the URL of binary `bin`, to be written to
/// `destination`.
pub fn plan_task(
    bin: &str,
    destination: &str,
    name: &str,
    version: &Version,
    pattern: &str,
    triple: &str,
    cwd: &str,
) -> (r: Result<BinaryTask, Outcome>)
    ensures
        planned_as(bin@, destination@, name@, version@, pattern@, triple@, cwd@, r),
{
    let context = UrlContext {
        bin: String::from_str(bin),
        name: String::from_str(name),
        triple: String::from_str(triple),
        version: version.clone(),
    };
    match make_url(&context, pattern, cwd) {
        Err(e) => Err(Outcome { bin: String::from_str(bin), result: Err(Error::Template(e)) }),
        Ok(location) => match parse_url(location.as_str()) {
            Ok(url) => Ok(
                BinaryTask {
                    bin: String::from_str(bin),
                    destination: String::from_str(destination),
                    location,
                    url,
                },
            ),
            Err(e) => Err(Outcome { bin: String::from_str(bin), result: Err(Error::UrlParse(e)) }),
        },
    }
}

/// Plans every declared binary, in declaration order.
pub fn plan(
    bins: &Bins,
    name: &str,
    version: &Version,
    pattern: &str,
    triple: &str,
    cwd: &str,
) -> (r: Vec<Result<BinaryTask, Outcome>>)
    requires
        keys_unique(bins_view(bins@)),
    ensures
        r.len() == bins.len(),
        forall|i: int|
            0 <= i < bins.len() ==> planned_as(
                #[trigger] bins@[i].0@,
                bins@[i].1@,
                name@,
                version@,
                pattern@,
                triple@,
                cwd@,
                r@[i],
            ),
{
    let mut out: Vec<Result<BinaryTask, Outcome>> = Vec::new();
    let mut i: usize = 0;
    while i < bins.len()
        invariant
            i <= bins.len(),
            out.len() == i,
            forall|k: int|
                0 <= k < i ==> planned_as(
                    #[trigger] bins@[k].0@,
                    bins@[k].1@,
                    name@,
                    version@,
                    pattern@,
                    triple@,
                    cwd@,
                    out@[k],
                ),
        decreases bins.len() - i,
    {
        let t = plan_task(bins[i].0.as_str(), bins[i].1.as_str(), name, version, pattern, triple, cwd);
        out.push(t);
        i = i + 1;
    }
    out
}

/// The line that reports outcome `o`, where it failed.
pub open spec fn failure_line(o: Outcome) -> Option<Seq<char>> {
    match o.result {
        Ok(_) => None,
        Err(e) => Some(o.bin@ + ": "@ + e.reason_spec()),
    }
}

/// The lines of the failed outcomes of `s`, in order.
pub open spec fn failure_lines(s: Seq<Outcome>) -> Seq<Seq<char>>
    decreases s.len(),
{
    if s.len() == 0 {
        Seq::empty()
    } else {
        match failure_line(s.last()) {
            Some(l) => failure_lines(s.drop_last()).push(l),
            None => failure_lines(s.drop_last()),
        }
    }
}

/// `lines` joined by line breaks.
pub open spec fn joined(lines: Seq<Seq<char>>) -> Seq<char>
    decreases lines.len(),
{
    if lines.len() == 0 {
        Seq::empty()
    } else if lines.len() == 1 {
        lines[0]
    } else {
        joined(lines.drop_last()) + "\n"@ + lines.last()
    }
}

/// The report over a whole run: success where nothing failed, else the
/// `name: reason` lines of the failed binaries, in order, one per line.
pub open spec fn report(s: Seq<Outcome>) -> Result<(), Seq<char>> {
    if failure_lines(s).len() == 0 {
        Ok(())
    } else {
        Err(joined(failure_lines(s)))
    }
}

/// There are no failure lines exactly where every outcome succeeded.
pub proof fn lemma_no_failure_lines(s: Seq<Outcome>)
    ensures
        failure_lines(s).len() == 0 <==> forall|i: int| 0 <= i < s.len() ==> (#[trigger] s[i]).result is Ok,
    decreases s.len(),
{
    if s.len() > 0 {
        lemma_no_failure_lines(s.drop_last());
        if failure_lines(s).len() == 0 {
            assert forall|i: int| 0 <= i < s.len() implies (#[trigger] s[i]).result is Ok by {
                if i < s.len() - 1 {
                    assert(s.drop_last()[i] == s[i]);
                }
            }
        } else if forall|i: int| 0 <= i < s.len() ==> (#[trigger] s[i]).result is Ok {
            assert(s[s.len() - 1].result is Ok);
            assert forall|i: int| 0 <= i < s.drop_last().len() implies (#[trigger] s.drop_last()[i]).result is Ok by {
                assert(s.drop_last()[i] == s[i]);
            }
        }
    }
}

/// Gathers the outcomes of a run, in declaration order, into one report.
pub fn aggregate(outcomes: &Vec<Outcome>) -> (r: Result<(), String>)
    ensures
        r is Ok <==> forall|i: int| 0 <= i < outcomes.len() ==> (#[trigger] outcomes@[i]).result is Ok,
        match r {
            Ok(_) => report(outcomes@) is Ok,
            Err(m) => report(outcomes@) == Err::<(), Seq<char>>(m@),
        },
{
    let mut msg = String::new();
    let mut count: usize = 0;
    let mut i: usize = 0;
    while i < outcomes.len()
        invariant
            i <= outcomes.len(),
            count <= i,
            count == failure_lines(outcomes@.subrange(0, i as int)).len(),
            msg@ == joined(failure_lines(outcomes@.subrange(0, i as int))),
        decreases outcomes.len() - i,
    {
        let ghost before = failure_lines(outcomes@.subrange(0, i as int));
        assert(outcomes@.subrange(0, i + 1).drop_last() =~= outcomes@.subrange(0, i as int));
        let o = &outcomes[i];
        match &o.result {
            Ok(_) => {},
            Err(e) => {
                let ghost line = o.bin@ + ": "@ + e.reason_spec();
                let ghost old_msg = msg@;
                if count > 0 {
                    msg.append("\n");
                }
                msg.append(o.bin.as_str());
                msg.append(": ");
                let why = e.reason();
                msg.append(why.as_str());
                proof {
                    let after = before.push(line);
                    assert(after.drop_last() =~= before);
                    if count > 0 {
                        assert(msg@ =~= old_msg + "\n"@ + line);
                    } else {
                        assert(msg@ =~= line);
                    }
                }
                count = count + 1;
            },
        }
        i = i + 1;
    }
    assert(outcomes@.subrange(0, outcomes.len() as int) =~= outcomes@);
    proof {
        lemma_no_failure_lines(outcomes@);
    }
    if count == 0 {
        Ok(())
    } else {
        Err(msg)
    }
}

/// Planning a binary twice on the same inputs gives the same plan: both
/// times a task with the same name, destination and URL, or both times the
/// same failure, reported by the same line.
pub proof fn planning_is_repeatable(
    bin: Seq<char>,
    dest: Seq<char>,
    name: Seq<char>,
    version: Seq<char>,
    pattern: Seq<char>,
    triple: Seq<char>,
    cwd: Seq<char>,
    r1: Result<BinaryTask, Outcome>,
    r2: Result<BinaryTask, Outcome>,
)
    requires
        planned_as(bin, dest, name, version, pattern, triple, cwd, r1),
        planned_as(bin, dest, name, version, pattern, triple, cwd, r2),
    ensures
        r1 is Ok <==> r2 is Ok,
        r1 matches Ok(t1) ==> (r2 matches Ok(t2) && t1.bin@ == t2.bin@ && t1.destination@
            == t2.destination@ && t1.location@ == t2.location@),
        r1 matches Err(o1) ==> (r2 matches Err(o2) && failure_line(o1) == failure_line(o2)
            && failure_line(o1) is Some),
{
}

/// Running the same binaries, manifest, pattern, triple and working
/// directory twice gives the same report, where every binary whose fetch and
/// write ran ended the same way both times: planning adds no state of its
/// own, and a binary that failed in planning failed the same way both times.
pub proof fn run_is_repeatable(
    bins: Seq<(Seq<char>, Seq<char>)>,
    name: Seq<char>,
    version: Seq<char>,
    pattern: Seq<char>,
    triple: Seq<char>,
    cwd: Seq<char>,
    p1: Seq<Result<BinaryTask, Outcome>>,
    p2: Seq<Result<BinaryTask, Outcome>>,
    s1: Seq<Outcome>,
    s2: Seq<Outcome>,
)
    requires
        p1.len() == bins.len() && p2.len() == bins.len(),
        s1.len() == bins.len() && s2.len() == bins.len(),
        forall|i: int|
            0 <= i < bins.len() ==> planned_as(
                (#[trigger] bins[i]).0,
                bins[i].1,
                name,
                version,
                pattern,
                triple,
                cwd,
                p1[i],
            ) && planned_as(bins[i].0, bins[i].1, name, version, pattern, triple, cwd, p2[i]),
        forall|i: int| 0 <= i < bins.len() ==> ((#[trigger] p1[i]) matches Err(o) ==> s1[i] == o),
        forall|i: int| 0 <= i < bins.len() ==> ((#[trigger] p2[i]) matches Err(o) ==> s2[i] == o),
        forall|i: int|
            0 <= i < bins.len() && (#[trigger] p1[i]) is Ok ==> failure_line(s1[i])
                == failure_line(s2[i]),
    ensures
        report(s1) == report(s2),
{
    assert forall|i: int| 0 <= i < s1.len() implies failure_line(#[trigger] s1[i])
        == failure_line(s2[i]) by {
        assert(planned_as(bins[i].0, bins[i].1, name, version, pattern, triple, cwd, p1[i]));
        planning_is_repeatable(
            bins[i].0,
            bins[i].1,
            name,
            version,
            pattern,
            triple,
            cwd,
            p1[i],
            p2[i],
        );
        if p1[i] is Ok {
            assert(failure_line(s1[i]) == failure_line(s2[i]));
        }
    }
    report_is_repeatable(s1, s2);
}

/// Two runs whose binaries ended the same way, name for name and reason for
/// reason, give the same report.
pub proof fn report_is_repeatable(s1: Seq<Outcome>, s2: Seq<Outcome>)
    requires
        s1.len() == s2.len(),
        forall|i: int| 0 <= i < s1.len() ==> failure_line(#[trigger] s1[i]) == failure_line(s2[i]),
    ensures
        report(s1) == report(s2),
{
    lemma_same_failure_lines(s1, s2);
}

/// Outcomes that report the same lines, one by one, give the same lines.
proof fn lemma_same_failure_lines(s1: Seq<Outcome>, s2: Seq<Outcome>)
    requires
        s1.len() == s2.len(),
        forall|i: int| 0 <= i < s1.len() ==> failure_line(#[trigger] s1[i]) == failure_line(s2[i]),
    ensures
        failure_lines(s1) == failure_lines(s2),
    decreases s1.len(),
{
    if s1.len() > 0 {
        assert forall|i: int| 0 <= i < s1.drop_last().len() implies failure_line(
            #[trigger] s1.drop_last()[i],
        ) == failure_line(s2.drop_last()[i]) by {
            assert(s1.drop_last()[i] == s1[i]);
            assert(s2.drop_last()[i] == s2[i]);
        }
        lemma_same_failure_lines(s1.drop_last(), s2.drop_last());
        assert(failure_line(s1[s1.len() - 1]) == failure_line(s2[s2.len() - 1]));
    }
}

/// Every binary that failed has its line in the report, whatever became of
/// the others: one failure never hides another.
pub proof fn every_failure_is_reported(s: Seq<Outcome>, i: int)
    requires
        0 <= i < s.len(),
        s[i].result is Err,
    ensures
        failure_lines(s).contains(failure_line(s[i])->Some_0),
        report(s) is Err,
    decreases s.len(),
{
    let l = failure_line(s[i])->Some_0;
    if i == s.len() - 1 {
        assert(failure_lines(s).last() == l);
    } else {
        assert(s.drop_last()[i] == s[i]);
        every_failure_is_reported(s.drop_last(), i);
        let before = failure_lines(s.drop_last());
        let k = choose|k: int| 0 <= k < before.len() && before[k] == l;
        match failure_line(s.last()) {
            Some(m) => assert(before.push(m)[k] == l),
            None => {},
        }
    }
}

} // verus!
