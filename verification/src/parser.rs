//! Parsers for the two scheduler output formats: the delimited job
//! listing and the `Key=Value` detail block, plus the derived log
//! path candidates.

use crate::job::{state_of_code, Job, JobState, JobV};
use crate::text;
use vstd::prelude::*;
use vstd::string::StringExecFns;

verus! {

/// Whether a listing line is the header line, recognized by its
/// leading column-name token.
pub open spec fn starts_with_jobid(l: Seq<char>) -> bool {
    l.len() >= 5 && l[0] == 'J' && l[1] == 'O' && l[2] == 'B' && l[3] == 'I' && l[4] == 'D'
}

/// Whether a listing line is skipped outright: blank lines and the
/// header line.
pub open spec fn line_is_skipped(l: Seq<char>) -> bool {
    text::trim_spec(l).len() == 0 || starts_with_jobid(l)
}

/// The comma-separated fields of a listing line, each trimmed.
pub open spec fn line_fields(l: Seq<char>) -> Seq<Seq<char>> {
    text::split_spec(l, ',').map_values(|f: Seq<char>| text::trim_spec(f))
}

/// Whether a listing line yields a job: it is not skipped and has at
/// least the four required fields (id, name, user, state).
pub open spec fn line_has_job(l: Seq<char>) -> bool {
    !line_is_skipped(l) && line_fields(l).len() >= 4
}

/// The array fields encoded in a job id.  They are set exactly when
/// the id splits on `_` into two non-empty parts whose second part is
/// a decimal `u32`; any other shape leaves both unset.
pub open spec fn array_fields_spec(id: Seq<char>) -> (Option<Seq<char>>, Option<u32>) {
    let ps = text::split_spec(id, '_');
    if ps.len() == 2 && ps[0].len() > 0 && ps[1].len() > 0 && text::parse_u32_spec(ps[1]) is Some {
        (Some(ps[0]), Some(text::parse_u32_spec(ps[1]).unwrap()))
    } else {
        (None, None)
    }
}

/// The job a listing line with at least four fields denotes.  Fields
/// five to seven, when present, give time used, node list and
/// partition; everything else starts absent.
pub open spec fn line_job(l: Seq<char>) -> JobV {
    let fs = line_fields(l);
    let af = array_fields_spec(fs[0]);
    JobV {
        job_id: fs[0],
        array_job_id: af.0,
        array_task_id: af.1,
        name: fs[1],
        user: fs[2],
        partition: if fs.len() > 6 {
            fs[6]
        } else {
            Seq::<char>::empty()
        },
        state: state_of_code(fs[3]),
        time_limit: None,
        time_used: if fs.len() > 4 {
            Some(fs[4])
        } else {
            None
        },
        submit_time: None,
        start_time: None,
        end_time: None,
        nodes: None,
        node_list: if fs.len() > 5 {
            Some(fs[5])
        } else {
            None
        },
        cpus: None,
        memory: None,
        working_dir: None,
        std_out: None,
        std_err: None,
        exit_code: None,
        reason: None,
    }
}

/// The jobs of a sequence of listing lines, in order; lines that
/// yield no job contribute nothing.
pub open spec fn jobs_of_lines(ls: Seq<Seq<char>>) -> Seq<JobV>
    decreases ls.len(),
{
    if ls.len() == 0 {
        Seq::<JobV>::empty()
    } else {
        (if line_has_job(ls[0]) {
            seq![line_job(ls[0])]
        } else {
            Seq::<JobV>::empty()
        }) + jobs_of_lines(ls.drop_first())
    }
}

/// The jobs a listing text denotes: its lines split on `\n`,
/// processed in order.
pub open spec fn parse_listing_spec(t: Seq<char>) -> Seq<JobV> {
    jobs_of_lines(text::split_spec(t, '\n'))
}

/// The parsers over the scheduler's textual output.
pub struct SlurmParser;

fn is_header_line(l: &Vec<char>) -> (r: bool)
    ensures
        r == starts_with_jobid(l@),
{
    l.len() >= 5 && l[0] == 'J' && l[1] == 'O' && l[2] == 'B' && l[3] == 'I' && l[4] == 'D'
}

fn trim_fields(parts: &Vec<Vec<char>>) -> (r: Vec<Vec<char>>)
    ensures
        r.deep_view() == parts.deep_view().map_values(|f: Seq<char>| text::trim_spec(f)),
{
    let mut r: Vec<Vec<char>> = Vec::new();
    let mut k: usize = 0;
    while k < parts.len()
        invariant
            k <= parts.len(),
            r@.len() == k as int,
            forall|i: int|
                0 <= i < k ==> #[trigger] r.deep_view()[i] == text::trim_spec(
                    parts.deep_view()[i],
                ),
        decreases parts.len() - k,
    {
        proof {
            assert(parts.deep_view()[k as int] =~= parts@[k as int]@);
        }
        let ghost va_old = r@;
        let ghost dv_old = r.deep_view();
        let t = text::trim_chars(&parts[k]);
        r.push(t);
        proof {
            assert forall|i: int|
                0 <= i < k as int + 1 implies #[trigger] r.deep_view()[i] == text::trim_spec(
                parts.deep_view()[i],
            ) by {
                assert(r@ == va_old.push(t));
                if i < k as int {
                    assert(r@[i] == va_old[i]);
                    assert(dv_old[i] == va_old[i].deep_view());
                    assert(dv_old[i] == text::trim_spec(parts.deep_view()[i]));
                } else {
                    assert(r@[i] == t);
                    assert(r.deep_view()[i] =~= t@);
                }
            }
        }
        k += 1;
    }
    proof {
        assert(r.deep_view() =~~= parts.deep_view().map_values(
            |f: Seq<char>| text::trim_spec(f),
        ));
    }
    r
}

impl SlurmParser {
    /// The jobs of a listing text, one candidate per line: a line
    /// with at least the four required fields yields a job whose
    /// identity, name, user and state come from those fields; blank
    /// lines, the header line and lines with fewer fields yield
    /// nothing.
    pub fn parse_squeue_output(output: &str) -> (jobs: Vec<Job>)
        ensures
            jobs.deep_view() == parse_listing_spec(output@),
    {
        let cs = text::str_chars(output);
        let lines = text::split_chars(&cs, '\n');
        let ghost lv = lines.deep_view();
        let mut jobs: Vec<Job> = Vec::new();
        proof {
            assert(lv.skip(0) =~~= lv);
        }
        let mut li: usize = 0;
        while li < lines.len()
            invariant
                li <= lines.len(),
                lv == lines.deep_view(),
                lv == text::split_spec(cs@, '\n'),
                cs@ == output@,
                jobs.deep_view() + jobs_of_lines(lv.skip(li as int)) =~~= parse_listing_spec(
                    output@,
                ),
            decreases lines.len() - li,
        {
            let ghost l = lv[li as int];
            proof {
                assert(lv.skip(li as int)[0] == lv[li as int]);
                assert(lv.skip(li as int).drop_first() =~~= lv.skip(li as int + 1));
                assert(l =~= lines@[li as int]@);
            }
            let trimmed = text::trim_chars(&lines[li]);
            let header = is_header_line(&lines[li]);
            if trimmed.len() > 0 && !header {
                let parts = text::split_chars(&lines[li], ',');
                let fields = trim_fields(&parts);
                proof {
                    assert(fields.deep_view() == line_fields(l));
                }
                if fields.len() >= 4 {
                    proof {
                        assert(fields.deep_view()[0] =~= fields@[0]@);
                        assert(fields.deep_view()[1] =~= fields@[1]@);
                        assert(fields.deep_view()[2] =~= fields@[2]@);
                        assert(fields.deep_view()[3] =~= fields@[3]@);
                    }
                    let job_id_s = text::chars_to_string(&fields[0]);
                    let name_s = text::chars_to_string(&fields[1]);
                    let user_s = text::chars_to_string(&fields[2]);
                    let state_s = text::chars_to_string(&fields[3]);
                    let state = JobState::from_code(state_s.as_str());
                    let mut job = Job::new(job_id_s, name_s, user_s, state);
                    let id_parts = text::split_chars(&fields[0], '_');
                    if id_parts.len() == 2 {
                        proof {
                            assert(id_parts.deep_view()[0] =~= id_parts@[0]@);
                            assert(id_parts.deep_view()[1] =~= id_parts@[1]@);
                        }
                        let p0_nonempty = id_parts[0].len() > 0;
                        let p1_nonempty = id_parts[1].len() > 0;
                        if p0_nonempty && p1_nonempty {
                            match text::parse_u32_chars(&id_parts[1]) {
                                Some(task) => {
                                    job.array_job_id = Some(text::chars_to_string(&id_parts[0]));
                                    job.array_task_id = Some(task);
                                },
                                None => {},
                            }
                        }
                    }
                    if fields.len() > 4 {
                        proof {
                            assert(fields.deep_view()[4] =~= fields@[4]@);
                        }
                        job.time_used = Some(text::chars_to_string(&fields[4]));
                    }
                    if fields.len() > 5 {
                        proof {
                            assert(fields.deep_view()[5] =~= fields@[5]@);
                        }
                        job.node_list = Some(text::chars_to_string(&fields[5]));
                    }
                    if fields.len() > 6 {
                        proof {
                            assert(fields.deep_view()[6] =~= fields@[6]@);
                        }
                        job.partition = text::chars_to_string(&fields[6]);
                    }
                    proof {
                        assert(line_has_job(l));
                        assert(job@ =~~= line_job(l));
                    }
                    let ghost jobs_old = jobs.deep_view();
                    jobs.push(job);
                    proof {
                        assert(jobs.deep_view() =~~= jobs_old.push(line_job(l)));
                        assert(jobs_old.push(line_job(l)) + jobs_of_lines(lv.skip(li as int + 1))
                            =~~= jobs_old + (seq![line_job(l)] + jobs_of_lines(
                            lv.skip(li as int + 1),
                        )));
                    }
                } else {
                    proof {
                        assert(!line_has_job(l));
                        assert(jobs.deep_view() + jobs_of_lines(lv.skip(li as int + 1))
                            =~~= jobs.deep_view() + (Seq::<JobV>::empty() + jobs_of_lines(
                            lv.skip(li as int + 1),
                        )));
                    }
                }
            } else {
                proof {
                    assert(line_is_skipped(l));
                    assert(!line_has_job(l));
                    assert(jobs.deep_view() + jobs_of_lines(lv.skip(li as int + 1))
                        =~~= jobs.deep_view() + (Seq::<JobV>::empty() + jobs_of_lines(
                        lv.skip(li as int + 1),
                    )));
                }
            }
            li += 1;
        }
        proof {
            assert(lv.skip(lines.len() as int) =~~= Seq::<Seq<char>>::empty());
            assert(jobs.deep_view() + jobs_of_lines(Seq::<Seq<char>>::empty())
                =~~= jobs.deep_view());
        }
        jobs
    }
}

/// The tokens of a detail line: the pieces between whitespace
/// boundaries that stand outside double quotes.  Adjacent boundaries
/// yield empty tokens, which the pairing step ignores.
pub open spec fn token_split_spec(s: Seq<char>, in_q: bool) -> Seq<Seq<char>>
    decreases s.len(),
{
    if s.len() == 0 {
        seq![Seq::<char>::empty()]
    } else if !in_q && text::is_space_char(s[0]) {
        seq![Seq::<char>::empty()] + token_split_spec(s.drop_first(), false)
    } else {
        let q2 = if s[0] == '"' {
            !in_q
        } else {
            in_q
        };
        let rest = token_split_spec(s.drop_first(), q2);
        seq![seq![s[0]] + rest[0]] + rest.drop_first()
    }
}

pub proof fn lemma_token_split_nonempty(s: Seq<char>, in_q: bool)
    ensures
        token_split_spec(s, in_q).len() >= 1,
    decreases s.len(),
{
    if s.len() > 0 && !(!in_q && text::is_space_char(s[0])) {
        let q2 = if s[0] == '"' {
            !in_q
        } else {
            in_q
        };
        lemma_token_split_nonempty(s.drop_first(), q2);
    }
}

/// Whether a token is a `Key=Value` pair: its first `=` stands after
/// a non-empty key.
pub open spec fn token_is_pair(t: Seq<char>) -> bool {
    text::find_char_spec(t, '=') >= 1
}

/// The key of a pair token: the part before its first `=`.
pub open spec fn token_key(t: Seq<char>) -> Seq<char> {
    t.take(text::find_char_spec(t, '='))
}

/// The raw value of a pair token: the part after its first `=`.
pub open spec fn token_val(t: Seq<char>) -> Seq<char> {
    t.skip(text::find_char_spec(t, '=') + 1)
}

/// The key/value pairs a token sequence denotes, processed left to
/// right with at most one pair pending.  A pair token opens a new
/// pair and emits the pending one; a token without `=` extends the
/// pending value across whitespace, joined by one space; a token
/// whose `=` stands first closes the pending pair and is dropped;
/// empty tokens are ignored.  Values stay raw here; quotes are
/// stripped when the mapping is built.
pub open spec fn pairs_rec(
    ts: Seq<Seq<char>>,
    cur: Option<(Seq<char>, Seq<char>)>,
) -> Seq<(Seq<char>, Seq<char>)>
    decreases ts.len(),
{
    if ts.len() == 0 {
        match cur {
            Some(p) => seq![p],
            None => Seq::<(Seq<char>, Seq<char>)>::empty(),
        }
    } else {
        let t = ts[0];
        if token_is_pair(t) {
            let opened = Some((token_key(t), token_val(t)));
            match cur {
                Some(p) => seq![p] + pairs_rec(ts.drop_first(), opened),
                None => pairs_rec(ts.drop_first(), opened),
            }
        } else if t.len() == 0 {
            pairs_rec(ts.drop_first(), cur)
        } else if text::find_char_spec(t, '=') == 0 {
            match cur {
                Some(p) => seq![p] + pairs_rec(ts.drop_first(), None),
                None => pairs_rec(ts.drop_first(), None),
            }
        } else {
            match cur {
                Some(p) => pairs_rec(ts.drop_first(), Some((p.0, p.1 + seq![' '] + t))),
                None => pairs_rec(ts.drop_first(), None),
            }
        }
    }
}

/// The key/value pairs of one detail line.
pub open spec fn line_pairs(l: Seq<char>) -> Seq<(Seq<char>, Seq<char>)> {
    pairs_rec(token_split_spec(l, false), None)
}

/// The key/value pairs of a sequence of detail lines, in order; a
/// pending value never continues across a line break.
pub open spec fn pairs_of_lines(ls: Seq<Seq<char>>) -> Seq<(Seq<char>, Seq<char>)>
    decreases ls.len(),
{
    if ls.len() == 0 {
        Seq::<(Seq<char>, Seq<char>)>::empty()
    } else {
        line_pairs(ls[0]) + pairs_of_lines(ls.drop_first())
    }
}

/// The key/value pairs a detail text denotes, in order of appearance.
pub open spec fn detail_pairs_spec(t: Seq<char>) -> Seq<(Seq<char>, Seq<char>)> {
    pairs_of_lines(text::split_spec(t, '\n'))
}

/// The mapping a pair sequence denotes: pairs inserted in order, so a
/// later duplicate key overwrites an earlier one; values lose their
/// surrounding double quotes.
pub open spec fn map_of_pairs(ps: Seq<(Seq<char>, Seq<char>)>) -> Map<Seq<char>, Seq<char>>
    decreases ps.len(),
{
    if ps.len() == 0 {
        Map::<Seq<char>, Seq<char>>::empty()
    } else {
        map_of_pairs(ps.drop_last()).insert(ps.last().0, text::strip_spec(ps.last().1, '"'))
    }
}

/// The mapping a detail text denotes.
pub open spec fn detail_map_spec(t: Seq<char>) -> Map<Seq<char>, Seq<char>> {
    map_of_pairs(detail_pairs_spec(t))
}

/// The field mapping parsed from a detail block: the key/value pairs
/// in order of appearance.  Looking a key up yields the value of its
/// last pair, quotes stripped.
pub struct DetailFields {
    pub entries: Vec<(String, String)>,
}

impl View for DetailFields {
    type V = Map<Seq<char>, Seq<char>>;

    open spec fn view(&self) -> Map<Seq<char>, Seq<char>> {
        map_of_pairs(self.entries.deep_view())
    }
}

/// The view of a pending exec pair.
pub open spec fn opt_pair_view(o: Option<(String, String)>) -> Option<(Seq<char>, Seq<char>)> {
    match o {
        Some(p) => Some((p.0@, p.1@)),
        None => None,
    }
}

impl DetailFields {
    /// The value recorded under `key`, quotes stripped, when the
    /// mapping holds the key.
    pub fn get(&self, key: &str) -> (r: Option<String>)
        ensures
            r is Some <==> self@.contains_key(key@),
            r is Some ==> r.unwrap()@ == self@[key@],
    {
        let ghost dv = self.entries.deep_view();
        let mut best: Option<usize> = None;
        let mut k: usize = 0;
        proof {
            assert(dv.take(0) =~~= Seq::<(Seq<char>, Seq<char>)>::empty());
        }
        while k < self.entries.len()
            invariant
                k <= self.entries.len(),
                dv == self.entries.deep_view(),
                match best {
                    Some(i) => 0 <= i < k as int && map_of_pairs(dv.take(k as int)).contains_key(
                        key@,
                    ) && map_of_pairs(dv.take(k as int))[key@] == text::strip_spec(dv[i as int].1, '"')
                        && dv[i as int].0 == key@,
                    None => !map_of_pairs(dv.take(k as int)).contains_key(key@),
                },
            decreases self.entries.len() - k,
        {
            proof {
                assert(dv.take(k as int + 1).drop_last() =~~= dv.take(k as int));
                assert(dv.take(k as int + 1).last() == dv[k as int]);
                assert(dv[k as int].0 =~= self.entries@[k as int].0@);
                assert(dv[k as int].1 =~= self.entries@[k as int].1@);
            }
            if text::str_eq(self.entries[k].0.as_str(), key) {
                best = Some(k);
            }
            k += 1;
        }
        proof {
            assert(dv.take(self.entries.len() as int) =~~= dv);
        }
        match best {
            Some(i) => {
                let cs = text::str_chars(self.entries[i].1.as_str());
                let st = text::strip_char(&cs, '"');
                let r = text::chars_to_string(&st);
                proof {
                    assert(cs@ =~= dv[i as int].1);
                }
                Some(r)
            },
            None => None,
        }
    }
}

fn token_split(s: &Vec<char>) -> (r: Vec<Vec<char>>)
    ensures
        r.deep_view() == token_split_spec(s@, false),
{
    let ghost whole = token_split_spec(s@, false);
    let mut pieces: Vec<Vec<char>> = Vec::new();
    let mut cur: Vec<char> = Vec::new();
    let mut in_q: bool = false;
    proof {
        lemma_token_split_nonempty(s@, false);
        assert(s@.skip(0) =~~= s@);
        assert(seq![whole[0]] + whole.drop_first() =~~= whole);
        assert(cur@ + whole[0] =~~= whole[0]);
        assert(pieces.deep_view() + (seq![cur@ + whole[0]] + whole.drop_first()) =~~= whole);
    }
    let mut k: usize = 0;
    while k < s.len()
        invariant
            k <= s.len(),
            token_split_spec(s@, false) =~~= pieces.deep_view() + {
                let rest = token_split_spec(s@.skip(k as int), in_q);
                seq![cur@ + rest[0]] + rest.drop_first()
            },
        decreases s.len() - k,
    {
        let ghost p_old = pieces.deep_view();
        let ghost cur_old = cur@;
        let ghost q_old = in_q;
        let ghost rest_k = token_split_spec(s@.skip(k as int), q_old);
        proof {
            assert(s@.skip(k as int).len() > 0);
            assert(s@.skip(k as int)[0] == s@[k as int]);
            assert(s@.skip(k as int).drop_first() =~~= s@.skip(k as int + 1));
        }
        let c = s[k];
        if !in_q && text::is_space(c) {
            let ghost rest_n = token_split_spec(s@.skip(k as int + 1), false);
            pieces.push(cur);
            cur = Vec::new();
            proof {
                lemma_token_split_nonempty(s@.skip(k as int + 1), false);
                assert(rest_k =~~= seq![Seq::<char>::empty()] + rest_n);
                assert(rest_k[0] =~~= Seq::<char>::empty());
                assert(rest_k.drop_first() =~~= rest_n);
                assert(cur_old + rest_k[0] =~~= cur_old);
                assert(pieces.deep_view() =~~= p_old.push(cur_old));
                assert(seq![rest_n[0]] + rest_n.drop_first() =~~= rest_n);
                assert(cur@ + rest_n[0] =~~= rest_n[0]);
                assert(p_old.push(cur_old) + (seq![cur@ + rest_n[0]] + rest_n.drop_first()) =~~= (
                p_old + (seq![cur_old + rest_k[0]] + rest_k.drop_first())));
            }
        } else {
            if c == '"' {
                in_q = !in_q;
            }
            let ghost rest_n = token_split_spec(s@.skip(k as int + 1), in_q);
            cur.push(c);
            proof {
                lemma_token_split_nonempty(s@.skip(k as int + 1), in_q);
                assert(rest_k =~~= seq![seq![c] + rest_n[0]] + rest_n.drop_first());
                assert(rest_k[0] =~~= seq![c] + rest_n[0]);
                assert(rest_k.drop_first() =~~= rest_n.drop_first());
                assert(cur@ =~~= cur_old.push(c));
                assert(cur@ + rest_n[0] =~~= cur_old + rest_k[0]);
                assert(p_old + (seq![cur@ + rest_n[0]] + rest_n.drop_first()) =~~= (p_old + (seq![
                    cur_old + rest_k[0],
                ] + rest_k.drop_first())));
            }
        }
        k += 1;
    }
    let ghost p_old = pieces.deep_view();
    let ghost cur_old = cur@;
    proof {
        assert(s@.skip(s.len() as int) =~~= Seq::<char>::empty());
    }
    pieces.push(cur);
    proof {
        let rest = token_split_spec(Seq::<char>::empty(), in_q);
        assert(rest =~~= seq![Seq::<char>::empty()]);
        assert(cur_old + rest[0] =~~= cur_old);
        assert(rest.drop_first() =~~= Seq::<Seq<char>>::empty());
        assert(pieces.deep_view() =~~= p_old.push(cur_old));
        assert(p_old + (seq![cur_old + rest[0]] + rest.drop_first()) =~~= p_old.push(cur_old));
        assert(token_split_spec(s@, false) =~~= pieces.deep_view());
    }
    pieces
}

impl SlurmParser {
    /// The field mapping of a detail block: whitespace-separated
    /// `Key=Value` tokens, values continuing across whitespace up to
    /// the next such token or kept whole inside double quotes, later
    /// duplicate keys overwriting earlier ones, malformed tokens
    /// ignored.
    pub fn parse_scontrol_output(output: &str) -> (r: DetailFields)
        ensures
            r.entries.deep_view() == detail_pairs_spec(output@),
            r@ == detail_map_spec(output@),
    {
        let cs = text::str_chars(output);
        let lines = text::split_chars(&cs, '\n');
        let ghost lv = lines.deep_view();
        let mut entries: Vec<(String, String)> = Vec::new();
        proof {
            assert(lv.skip(0) =~~= lv);
            assert(entries.deep_view() + pairs_of_lines(lv) =~~= detail_pairs_spec(output@));
        }
        let mut li: usize = 0;
        while li < lines.len()
            invariant
                li <= lines.len(),
                lv == lines.deep_view(),
                lv == text::split_spec(cs@, '\n'),
                cs@ == output@,
                entries.deep_view() + pairs_of_lines(lv.skip(li as int)) =~~= detail_pairs_spec(
                    output@,
                ),
            decreases lines.len() - li,
        {
            let ghost l = lv[li as int];
            proof {
                assert(lv.skip(li as int)[0] == lv[li as int]);
                assert(lv.skip(li as int).drop_first() =~~= lv.skip(li as int + 1));
                assert(l =~= lines@[li as int]@);
            }
            let tokens = token_split(&lines[li]);
            let ghost tv = tokens.deep_view();
            let ghost base = entries.deep_view();
            let mut cur: Option<(String, String)> = None;
            proof {
                assert(tv.skip(0) =~~= tv);
                assert(tv == token_split_spec(l, false));
            }
            let mut ti: usize = 0;
            while ti < tokens.len()
                invariant
                    ti <= tokens.len(),
                    tv == tokens.deep_view(),
                    base + line_pairs(l) =~~= entries.deep_view() + pairs_rec(
                        tv.skip(ti as int),
                        opt_pair_view(cur),
                    ),
                    line_pairs(l) == pairs_rec(tv, None),
                decreases tokens.len() - ti,
            {
                let ghost t = tv[ti as int];
                let ghost cur_v = opt_pair_view(cur);
                let ghost e_old = entries.deep_view();
                let tok = &tokens[ti];
                proof {
                    assert(tv.skip(ti as int)[0] == tv[ti as int]);
                    assert(tv.skip(ti as int).drop_first() =~~= tv.skip(ti as int + 1));
                    assert(t =~= tokens@[ti as int]@);
                    assert(tok@ == t);
                    text::lemma_find_char_spec_range(tok@, '=');
                }
                match text::find_char(tok, '=') {
                    Some(eq_pos) if eq_pos >= 1 => {
                        let tok_len = tok.len();
                        proof {
                            assert(eq_pos < tok_len);
                        }
                        let key = text::chars_to_string(&text::vec_take(tok, eq_pos));
                        let val = text::chars_to_string(&text::vec_skip(tok, eq_pos + 1));
                        let prev = cur;
                        cur = Some((key, val));
                        match prev {
                            Some(p) => {
                                entries.push(p);
                                proof {
                                    assert(entries.deep_view() =~~= e_old.push(cur_v.unwrap()));
                                    assert(e_old.push(cur_v.unwrap()) + pairs_rec(
                                        tv.skip(ti as int + 1),
                                        opt_pair_view(cur),
                                    ) =~~= e_old + (seq![cur_v.unwrap()] + pairs_rec(
                                        tv.skip(ti as int + 1),
                                        opt_pair_view(cur),
                                    )));
                                }
                            },
                            None => {},
                        }
                        proof {
                            assert(opt_pair_view(cur) == Some((token_key(t), token_val(t))));
                        }
                    },
                    Some(_) => {
                        // the `=` stands first: no key, and the pending pair ends
                        let prev = cur;
                        cur = None;
                        match prev {
                            Some(p) => {
                                entries.push(p);
                                proof {
                                    assert(entries.deep_view() =~~= e_old.push(cur_v.unwrap()));
                                    assert(e_old.push(cur_v.unwrap()) + pairs_rec(
                                        tv.skip(ti as int + 1),
                                        None,
                                    ) =~~= e_old + (seq![cur_v.unwrap()] + pairs_rec(
                                        tv.skip(ti as int + 1),
                                        None,
                                    )));
                                }
                            },
                            None => {},
                        }
                    },
                    None => {
                        if tok.len() == 0 {
                            // an empty token between adjacent boundaries
                        } else {
                            let prev = cur;
                            match prev {
                                Some(p) => {
                                    let mut val = p.1;
                                    val.push(' ');
                                    val.append(text::chars_to_string(tok).as_str());
                                    proof {
                                        assert(val@ =~= cur_v.unwrap().1 + seq![' '] + t);
                                    }
                                    cur = Some((p.0, val));
                                },
                                None => {
                                    cur = None;
                                },
                            }
                        }
                    },
                }
                ti += 1;
            }
            proof {
                assert(tv.skip(tokens.len() as int) =~~= Seq::<Seq<char>>::empty());
            }
            match cur {
                Some(p) => {
                    let ghost e_old = entries.deep_view();
                    let ghost cur_v = opt_pair_view(cur);
                    entries.push(p);
                    proof {
                        assert(entries.deep_view() =~~= e_old.push(cur_v.unwrap()));
                        assert(pairs_rec(Seq::<Seq<char>>::empty(), cur_v) =~~= seq![
                            cur_v.unwrap(),
                        ]);
                        assert(e_old + seq![cur_v.unwrap()] =~~= e_old.push(cur_v.unwrap()));
                    }
                },
                None => {
                    proof {
                        assert(pairs_rec(Seq::<Seq<char>>::empty(), opt_pair_view(cur))
                            =~~= Seq::<(Seq<char>, Seq<char>)>::empty());
                    }
                },
            }
            proof {
                assert(entries.deep_view() =~~= base + line_pairs(l));
                assert(pairs_of_lines(lv.skip(li as int)) =~~= line_pairs(l) + pairs_of_lines(
                    lv.skip(li as int + 1),
                ));
                assert(entries.deep_view() + pairs_of_lines(lv.skip(li as int + 1))
                    =~~= detail_pairs_spec(output@));
            }
            li += 1;
        }
        proof {
            assert(lv.skip(lines.len() as int) =~~= Seq::<Seq<char>>::empty());
            assert(entries.deep_view() + pairs_of_lines(Seq::<Seq<char>>::empty())
                =~~= entries.deep_view());
        }
        let r = DetailFields { entries };
        r
    }
}

/// The timestamp a text denotes under the scheduler's two fixed
/// patterns, seconds since the Unix epoch, or `None` when the text
/// matches neither pattern.  The result depends on the text alone.
pub uninterp spec fn timestamp_of(s: Seq<char>) -> Option<i64>;

/// Relies on chrono's `NaiveDateTime::parse_from_str` with the fixed
/// patterns `%Y-%m-%dT%H:%M:%S` and `%Y-%m-%dT%H:%M:%S%.f`, and on
/// `DateTime::timestamp` after `and_utc`: the parse is locale- and
/// environment-independent, so the result is a function of the text.
#[verifier::external_body]
fn parse_timestamp_utc(s: &str) -> (r: Option<i64>)
    ensures
        r == timestamp_of(s@),
{
    match chrono::NaiveDateTime::parse_from_str(s, "%Y-%m-%dT%H:%M:%S") {
        Ok(dt) => Some(dt.and_utc().timestamp()),
        Err(_) => match chrono::NaiveDateTime::parse_from_str(s, "%Y-%m-%dT%H:%M:%S%.f") {
            Ok(dt) => Some(dt.and_utc().timestamp()),
            Err(_) => None,
        },
    }
}

/// The time a detail field denotes: the sentinels `"Unknown"`,
/// `"None"` and the empty text mean "not yet known"; anything else is
/// read under the two fixed timestamp patterns, unparsable text again
/// yielding `None`.
pub open spec fn slurm_time_of(s: Seq<char>) -> Option<i64> {
    if s == "Unknown"@ || s == "None"@ || s.len() == 0 {
        None
    } else {
        timestamp_of(s)
    }
}

/// The part of an `ExitCode` value before its first `:`; the whole
/// value when it has none.
pub open spec fn exit_code_prefix(v: Seq<char>) -> Seq<char> {
    if text::find_char_spec(v, ':') >= 0 {
        v.take(text::find_char_spec(v, ':'))
    } else {
        v
    }
}

/// The value under `key` when the mapping holds it, the fallback
/// otherwise.
pub open spec fn merged_opt_str(
    m: Map<Seq<char>, Seq<char>>,
    key: Seq<char>,
    prev: Option<Seq<char>>,
) -> Option<Seq<char>> {
    if m.contains_key(key) {
        Some(m[key])
    } else {
        prev
    }
}

/// The job enriched with a detail mapping: recognized keys overwrite
/// their field (a present but unparsable time or number leaves the
/// field unknown); absent keys leave the field as it was; identity,
/// descriptive and listing-derived fields are untouched.
pub open spec fn merge_detail_spec(j: JobV, m: Map<Seq<char>, Seq<char>>) -> JobV {
    JobV {
        job_id: j.job_id,
        array_job_id: j.array_job_id,
        array_task_id: j.array_task_id,
        name: j.name,
        user: j.user,
        partition: j.partition,
        state: j.state,
        time_used: j.time_used,
        node_list: j.node_list,
        submit_time: if m.contains_key("SubmitTime"@) {
            slurm_time_of(m["SubmitTime"@])
        } else {
            j.submit_time
        },
        start_time: if m.contains_key("StartTime"@) {
            slurm_time_of(m["StartTime"@])
        } else {
            j.start_time
        },
        end_time: if m.contains_key("EndTime"@) {
            slurm_time_of(m["EndTime"@])
        } else {
            j.end_time
        },
        working_dir: merged_opt_str(m, "WorkDir"@, j.working_dir),
        std_out: merged_opt_str(m, "StdOut"@, j.std_out),
        std_err: merged_opt_str(m, "StdErr"@, j.std_err),
        nodes: if m.contains_key("NumNodes"@) {
            text::parse_u32_spec(m["NumNodes"@])
        } else {
            j.nodes
        },
        cpus: if m.contains_key("NumCPUs"@) {
            text::parse_u32_spec(m["NumCPUs"@])
        } else {
            j.cpus
        },
        memory: merged_opt_str(m, "MinMemoryNode"@, j.memory),
        reason: merged_opt_str(m, "Reason"@, j.reason),
        exit_code: if m.contains_key("ExitCode"@) {
            text::parse_i32_spec(exit_code_prefix(m["ExitCode"@]))
        } else {
            j.exit_code
        },
        time_limit: merged_opt_str(m, "TimeLimit"@, j.time_limit),
    }
}

impl SlurmParser {
    /// The time a detail field denotes, or `None` for the sentinels
    /// and for unparsable text.
    pub fn parse_slurm_time(time_str: &str) -> (r: Option<i64>)
        ensures
            r == slurm_time_of(time_str@),
    {
        if text::str_eq(time_str, "Unknown") || text::str_eq(time_str, "None")
            || time_str.unicode_len() == 0 {
            None
        } else {
            parse_timestamp_utc(time_str)
        }
    }

    /// Enriches a job in place from a detail mapping, field by field.
    pub fn enhance_job_with_scontrol_data(job: &mut Job, fields: &DetailFields)
        ensures
            final(job)@ == merge_detail_spec(old(job)@, fields@),
    {
        match Self::get_field(fields, "SubmitTime") {
            Some(v) => {
                job.submit_time = Self::parse_slurm_time(v.as_str());
            },
            None => {},
        }
        match Self::get_field(fields, "StartTime") {
            Some(v) => {
                job.start_time = Self::parse_slurm_time(v.as_str());
            },
            None => {},
        }
        match Self::get_field(fields, "EndTime") {
            Some(v) => {
                job.end_time = Self::parse_slurm_time(v.as_str());
            },
            None => {},
        }
        match Self::get_field(fields, "WorkDir") {
            Some(v) => {
                job.working_dir = Some(v);
            },
            None => {},
        }
        match Self::get_field(fields, "StdOut") {
            Some(v) => {
                job.std_out = Some(v);
            },
            None => {},
        }
        match Self::get_field(fields, "StdErr") {
            Some(v) => {
                job.std_err = Some(v);
            },
            None => {},
        }
        match Self::get_field(fields, "NumNodes") {
            Some(v) => {
                let cs = text::str_chars(v.as_str());
                job.nodes = text::parse_u32_chars(&cs);
            },
            None => {},
        }
        match Self::get_field(fields, "NumCPUs") {
            Some(v) => {
                let cs = text::str_chars(v.as_str());
                job.cpus = text::parse_u32_chars(&cs);
            },
            None => {},
        }
        match Self::get_field(fields, "MinMemoryNode") {
            Some(v) => {
                job.memory = Some(v);
            },
            None => {},
        }
        match Self::get_field(fields, "Reason") {
            Some(v) => {
                job.reason = Some(v);
            },
            None => {},
        }
        match Self::get_field(fields, "ExitCode") {
            Some(v) => {
                let cs = text::str_chars(v.as_str());
                proof {
                    text::lemma_find_char_spec_range(cs@, ':');
                }
                let pre = match text::find_char(&cs, ':') {
                    Some(i) => text::vec_take(&cs, i),
                    None => cs,
                };
                job.exit_code = text::parse_i32_chars(&pre);
            },
            None => {},
        }
        match Self::get_field(fields, "TimeLimit") {
            Some(v) => {
                job.time_limit = Some(v);
            },
            None => {},
        }
        proof {
            assert(job@ =~~= merge_detail_spec(old(job)@, fields@));
        }
    }

    fn get_field(fields: &DetailFields, key: &str) -> (r: Option<String>)
        ensures
            r is Some <==> fields@.contains_key(key@),
            r is Some ==> r.unwrap()@ == fields@[key@],
    {
        fields.get(key)
    }

    /// The candidate log paths for a job, in search order: its
    /// recorded stdout, its stderr when different, the conventional
    /// `slurm-<id>.out`/`.err` names in the working directory when
    /// one is known, else in the current directory, and finally the
    /// same names under `/tmp/`.
    pub fn get_job_log_paths(job: &Job) -> (r: Vec<String>)
        ensures
            r.deep_view() == log_path_candidates(job@),
    {
        let mut paths: Vec<String> = Vec::new();
        match &job.std_out {
            Some(o) => {
                paths.push(o.clone());
            },
            None => {},
        }
        match (&job.std_err, &job.std_out) {
            (Some(e), Some(o)) => {
                if !text::str_eq(e.as_str(), o.as_str()) {
                    paths.push(e.clone());
                }
            },
            (Some(e), None) => {
                paths.push(e.clone());
            },
            _ => {},
        }
        let mut out_name = String::from_str("slurm-");
        out_name.append(job.job_id.as_str());
        out_name.append(".out");
        let mut err_name = String::from_str("slurm-");
        err_name.append(job.job_id.as_str());
        err_name.append(".err");
        match &job.working_dir {
            Some(w) => {
                let mut p1 = w.clone();
                p1.append("/");
                p1.append(out_name.as_str());
                paths.push(p1);
                let mut p2 = w.clone();
                p2.append("/");
                p2.append(err_name.as_str());
                paths.push(p2);
            },
            None => {
                paths.push(out_name.clone());
                paths.push(err_name.clone());
            },
        }
        let mut t1 = String::from_str("/tmp/");
        t1.append(out_name.as_str());
        paths.push(t1);
        let mut t2 = String::from_str("/tmp/");
        t2.append(err_name.as_str());
        paths.push(t2);
        proof {
            assert(paths.deep_view() =~~= log_path_candidates(job@));
        }
        paths
    }
}

/// Every listing line with at least four fields yields exactly one
/// job, whose identity, name, user and state are its first four
/// fields and whose array fields follow the array-id rule; a blank
/// line, the header line and a line with fewer than four fields
/// yield none.
pub proof fn lemma_listing_line_jobs(l: Seq<char>)
    ensures
        line_has_job(l) ==> jobs_of_lines(seq![l]) == seq![line_job(l)],
        !line_has_job(l) ==> jobs_of_lines(seq![l]) == Seq::<JobV>::empty(),
        line_has_job(l) ==> {
            let j = line_job(l);
            &&& j.job_id == line_fields(l)[0]
            &&& j.name == line_fields(l)[1]
            &&& j.user == line_fields(l)[2]
            &&& j.state == state_of_code(line_fields(l)[3])
            &&& (j.array_job_id, j.array_task_id) == array_fields_spec(line_fields(l)[0])
        },
{
    reveal_with_fuel(jobs_of_lines, 2);
    let ls = seq![l];
    assert(ls[0] == l);
    assert(ls.drop_first() =~~= Seq::<Seq<char>>::empty());
    if line_has_job(l) {
        assert(jobs_of_lines(ls) =~~= seq![line_job(l)]);
    } else {
        assert(jobs_of_lines(ls) =~~= Seq::<JobV>::empty());
    }
}

/// The displayed identity follows the array-id rule: a job whose
/// array fields come from its id shows `"{array}_{task}"` exactly
/// when the id splits on `_` into two non-empty parts with a decimal
/// `u32` second part, and shows the raw id unchanged otherwise.
pub proof fn lemma_display_id_follows_array_rule(j: JobV)
    requires
        (j.array_job_id, j.array_task_id) == array_fields_spec(j.job_id),
    ensures
        ({
            let ps = text::split_spec(j.job_id, '_');
            if ps.len() == 2 && ps[0].len() > 0 && ps[1].len() > 0 && text::parse_u32_spec(
                ps[1],
            ) is Some {
                crate::job::display_id_spec(j) == ps[0] + seq!['_'] + text::dec_str(
                    text::parse_u32_spec(ps[1]).unwrap() as nat,
                )
            } else {
                crate::job::display_id_spec(j) == j.job_id
            }
        }),
{
}

/// The candidate log paths of a job, in priority order.
pub open spec fn log_path_candidates(j: JobV) -> Seq<Seq<char>> {
    let out_name = "slurm-"@ + j.job_id + ".out"@;
    let err_name = "slurm-"@ + j.job_id + ".err"@;
    (match j.std_out {
        Some(o) => seq![o],
        None => Seq::<Seq<char>>::empty(),
    }) + (match (j.std_err, j.std_out) {
        (Some(e), Some(o)) => if e != o {
            seq![e]
        } else {
            Seq::<Seq<char>>::empty()
        },
        (Some(e), None) => seq![e],
        _ => Seq::<Seq<char>>::empty(),
    }) + (match j.working_dir {
        Some(w) => seq![w + "/"@ + out_name, w + "/"@ + err_name],
        None => seq![out_name, err_name],
    }) + seq!["/tmp/"@ + out_name, "/tmp/"@ + err_name]
}

} // verus!
