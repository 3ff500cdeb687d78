//! The sources that diagnostics refer to, and the reports on diagnostics
//! against them.

use crate::error::{CarbideError, ReportData, ReportView};
use crate::text::str_eq;
use vstd::prelude::*;

verus! {

/// A named source text.
struct SourceFile {
    name: String,
    content: String,
}

/// The map that a list of named texts stands for; of two entries of one
/// name the later counts.
pub open spec fn sources_map(entries: Seq<(Seq<char>, Seq<char>)>) -> Map<Seq<char>, Seq<char>>
    decreases entries.len(),
{
    if entries.len() == 0 {
        Map::empty()
    } else {
        sources_map(entries.drop_last()).insert(entries.last().0, entries.last().1)
    }
}

/// Whether no name occurs twice among the entries.
pub open spec fn distinct_names(entries: Seq<(Seq<char>, Seq<char>)>) -> bool {
    forall|i: int, j: int|
        0 <= i < j < entries.len() ==> (#[trigger] entries[i]).0 != (#[trigger] entries[j]).0
}

proof fn lemma_sources_map_domain(entries: Seq<(Seq<char>, Seq<char>)>, name: Seq<char>)
    ensures
        sources_map(entries).contains_key(name) <==> exists|i: int|
            0 <= i < entries.len() && (#[trigger] entries[i]).0 == name,
    decreases entries.len(),
{
    if entries.len() > 0 {
        let rest = entries.drop_last();
        lemma_sources_map_domain(rest, name);
        if sources_map(entries).contains_key(name) {
            if entries.last().0 == name {
                assert(entries[entries.len() - 1].0 == name);
            } else {
                let i = choose|i: int| 0 <= i < rest.len() && (#[trigger] rest[i]).0 == name;
                assert(entries[i].0 == name);
            }
        }
        if exists|i: int| 0 <= i < entries.len() && (#[trigger] entries[i]).0 == name {
            let i = choose|i: int| 0 <= i < entries.len() && (#[trigger] entries[i]).0 == name;
            if i < entries.len() - 1 {
                assert(rest[i].0 == name);
            }
        }
    }
}

proof fn lemma_sources_map_lookup(entries: Seq<(Seq<char>, Seq<char>)>, i: int)
    requires
        distinct_names(entries),
        0 <= i < entries.len(),
    ensures
        sources_map(entries).contains_key(entries[i].0),
        sources_map(entries)[entries[i].0] == entries[i].1,
    decreases entries.len(),
{
    let rest = entries.drop_last();
    if i < entries.len() - 1 {
        assert(distinct_names(rest)) by {
            assert forall|a: int, b: int| 0 <= a < b < rest.len() implies (#[trigger] rest[a]).0
                != (#[trigger] rest[b]).0 by {
                assert(entries[a].0 != entries[b].0);
            }
        }
        lemma_sources_map_lookup(rest, i);
        assert(entries[i].0 != entries[entries.len() - 1].0);
        assert(rest[i] == entries[i]);
    }
}

proof fn lemma_sources_map_update(
    entries: Seq<(Seq<char>, Seq<char>)>,
    i: int,
    content: Seq<char>,
)
    requires
        distinct_names(entries),
        0 <= i < entries.len(),
    ensures
        sources_map(entries.update(i, (entries[i].0, content))) == sources_map(entries).insert(
            entries[i].0,
            content,
        ),
    decreases entries.len(),
{
    let name = entries[i].0;
    let updated = entries.update(i, (name, content));
    let rest = entries.drop_last();
    if i == entries.len() - 1 {
        assert(updated.drop_last() =~= rest);
        assert(sources_map(updated) =~= sources_map(entries).insert(name, content));
    } else {
        assert(distinct_names(rest)) by {
            assert forall|a: int, b: int| 0 <= a < b < rest.len() implies (#[trigger] rest[a]).0
                != (#[trigger] rest[b]).0 by {
                assert(entries[a].0 != entries[b].0);
            }
        }
        lemma_sources_map_update(rest, i, content);
        assert(rest[i] == entries[i]);
        assert(updated.drop_last() =~= rest.update(i, (name, content)));
        assert(entries[i].0 != entries[entries.len() - 1].0);
        assert(sources_map(updated) =~= sources_map(entries).insert(name, content));
    }
}

/// Keeps the source texts by name and builds the reports on diagnostics
/// against them.
pub struct ErrorReporter {
    files: Vec<SourceFile>,
}

impl ErrorReporter {
    /// The names and texts that are kept, in the order of their arrival.
    closed spec fn entries(&self) -> Seq<(Seq<char>, Seq<char>)> {
        Seq::new(self.files.len() as nat, |i: int| (self.files[i].name@, self.files[i].content@))
    }

    /// The source texts by name.
    pub closed spec fn sources(&self) -> Map<Seq<char>, Seq<char>> {
        sources_map(self.entries())
    }

    /// The reporter's invariant: no name is kept twice.
    pub closed spec fn wf(&self) -> bool {
        distinct_names(self.entries())
    }

    /// The text of the source named `filename`; the empty text where no
    /// such source is kept.
    pub open spec fn source_of(&self, filename: Seq<char>) -> Seq<char> {
        if self.sources().contains_key(filename) {
            self.sources()[filename]
        } else {
            Seq::empty()
        }
    }

    /// A reporter that keeps no source.
    pub fn new() -> (r: Self)
        ensures
            r.wf(),
            r.sources() == Map::<Seq<char>, Seq<char>>::empty(),
    {
        let r = ErrorReporter { files: Vec::new() };
        assert(r.entries() =~= Seq::empty());
        r
    }

    /// The index at which the source named `filename` is kept.
    fn find(&self, filename: &str) -> (r: Option<usize>)
        requires
            self.wf(),
        ensures
            match r {
                Some(i) => i < self.files.len() && self.files[i as int].name@ == filename@,
                None => !self.sources().contains_key(filename@),
            },
    {
        let mut i: usize = 0;
        while i < self.files.len()
            invariant
                i <= self.files.len(),
                forall|k: int| 0 <= k < i ==> (#[trigger] self.entries()[k]).0 != filename@,
            decreases self.files.len() - i,
        {
            if str_eq(self.files[i].name.as_str(), filename) {
                return Some(i);
            }
            i += 1;
        }
        proof {
            lemma_sources_map_domain(self.entries(), filename@);
        }
        None
    }

    /// Keeps `content` as the source named `filename`, in place of what was
    /// kept under that name.
    pub fn add_source(&mut self, filename: &str, content: &str)
        requires
            old(self).wf(),
        ensures
            final(self).wf(),
            final(self).sources() == old(self).sources().insert(filename@, content@),
    {
        match self.find(filename) {
            Some(i) => {
                proof {
                    lemma_sources_map_update(self.entries(), i as int, content@);
                }
                let file = SourceFile { name: filename.to_owned(), content: content.to_owned() };
                self.files.set(i, file);
                assert(self.entries() =~= old(self).entries().update(
                    i as int,
                    (filename@, content@),
                ));
                assert forall|a: int, b: int| 0 <= a < b < self.entries().len() implies (
                #[trigger] self.entries()[a]).0 != (#[trigger] self.entries()[b]).0 by {
                    assert(old(self).entries()[a].0 != old(self).entries()[b].0);
                }
            },
            None => {
                proof {
                    lemma_sources_map_domain(self.entries(), filename@);
                }
                self.files.push(
                    SourceFile { name: filename.to_owned(), content: content.to_owned() },
                );
                assert(self.entries().drop_last() =~= old(self).entries());
                assert(self.entries().last() == (filename@, content@));
                assert forall|a: int, b: int| 0 <= a < b < self.entries().len() implies (
                #[trigger] self.entries()[a]).0 != (#[trigger] self.entries()[b]).0 by {
                    assert(self.entries()[a] == old(self).entries()[a]);
                    if b < old(self).entries().len() {
                        assert(self.entries()[b] == old(self).entries()[b]);
                        assert(old(self).entries()[a].0 != old(self).entries()[b].0);
                    }
                }
            },
        }
    }

    /// The text of the source named `filename`; the empty text where no
    /// such source is kept.
    pub fn source(&self, filename: &str) -> (r: &str)
        requires
            self.wf(),
        ensures
            r@ == self.source_of(filename@),
    {
        match self.find(filename) {
            Some(i) => {
                proof {
                    lemma_sources_map_lookup(self.entries(), i as int);
                }
                self.files[i].content.as_str()
            },
            None => {
                proof {
                    reveal_strlit("");
                }
                ""
            },
        }
    }

    /// The report on `error` against the source named `filename`. It fails
    /// where the diagnostic cannot be reported on.
    pub fn build_report<E: CarbideError>(&self, filename: &str, error: &E) -> (r: Result<
        ReportData,
        String,
    >)
        requires
            self.wf(),
        ensures
            match r {
                Ok(d) => error.report_of(filename@, self.source_of(filename@)) == Some(d@),
                Err(m) => error.report_of(filename@, self.source_of(filename@)) is None && m@
                    == "Failed to get report"@,
            },
    {
        let src = self.source(filename);
        match error.report(filename, src) {
            Ok(d) => Ok(d),
            Err(_) => Err("Failed to get report".to_owned()),
        }
    }

    /// The reports on `errors`, in their order, against the source named
    /// `filename`. It fails at the first diagnostic that cannot be reported
    /// on.
    pub fn build_reports<E: CarbideError>(&self, filename: &str, errors: &Vec<E>) -> (r: Result<
        Vec<ReportData>,
        String,
    >)
        requires
            self.wf(),
        ensures
            match r {
                Ok(list) => list.len() == errors.len() && forall|i: int|
                    0 <= i < errors.len() ==> (#[trigger] errors[i]).report_of(
                        filename@,
                        self.source_of(filename@),
                    ) == Some(list[i]@),
                Err(m) => m@ == "Failed to get report"@ && exists|i: int|
                    0 <= i < errors.len() && (#[trigger] errors[i]).report_of(
                        filename@,
                        self.source_of(filename@),
                    ) is None,
            },
    {
        let mut list: Vec<ReportData> = Vec::new();
        let mut i: usize = 0;
        while i < errors.len()
            invariant
                self.wf(),
                i <= errors.len(),
                list.len() == i,
                forall|k: int|
                    0 <= k < i ==> (#[trigger] errors[k]).report_of(
                        filename@,
                        self.source_of(filename@),
                    ) == Some(list[k]@),
            decreases errors.len() - i,
        {
            match self.build_report(filename, &errors[i]) {
                Ok(d) => {
                    list.push(d);
                },
                Err(m) => {
                    assert(errors[i as int].report_of(filename@, self.source_of(filename@))
                        is None);
                    return Err(m);
                },
            }
            i += 1;
        }
        Ok(list)
    }
}

/// The value of an optional report.
pub open spec fn option_report(r: Option<ReportData>) -> Option<ReportView> {
    match r {
        Some(d) => Some(d@),
        None => None,
    }
}

impl ErrorReporter {
    /// For each of `errors`, in their order, the report on it against the
    /// source named `filename`, or `None` where it cannot be reported on.
    pub fn each_report<E: CarbideError>(&self, filename: &str, errors: &Vec<E>) -> (r: Vec<
        Option<ReportData>,
    >)
        requires
            self.wf(),
        ensures
            r.len() == errors.len(),
            forall|i: int|
                0 <= i < errors.len() ==> (#[trigger] errors[i]).report_of(
                    filename@,
                    self.source_of(filename@),
                ) == option_report(r[i]),
    {
        let mut list: Vec<Option<ReportData>> = Vec::new();
        let mut i: usize = 0;
        while i < errors.len()
            invariant
                self.wf(),
                i <= errors.len(),
                list.len() == i,
                forall|k: int|
                    0 <= k < i ==> (#[trigger] errors[k]).report_of(
                        filename@,
                        self.source_of(filename@),
                    ) == option_report(list[k]),
            decreases errors.len() - i,
        {
            match self.build_report(filename, &errors[i]) {
                Ok(d) => {
                    list.push(Some(d));
                },
                Err(_) => {
                    list.push(None);
                },
            }
            i += 1;
        }
        list
    }
}

impl Default for ErrorReporter {
    fn default() -> (r: Self)
        ensures
            r.wf(),
            r.sources() == Map::<Seq<char>, Seq<char>>::empty(),
    {
        Self::new()
    }
}

} // verus!
