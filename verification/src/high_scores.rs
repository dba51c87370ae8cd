//! The table of the best scores, best first.

use vstd::prelude::*;

verus! {

/// The table: a name and a score in each row, the best score first.
#[derive(Clone, Debug)]
pub struct HighScores {
    pub names: Vec<String>,
    pub values: Vec<u32>,
}

/// Longest name that the table keeps, in characters.
pub const NAME_LEN: usize = 15;

/// A name as the table keeps it: its first 15 characters.
pub open spec fn clipped(name: Seq<char>) -> Seq<char> {
    if name.len() > 15 {
        name.take(15)
    } else {
        name
    }
}

/// The names of the rows as mathematical values.
pub open spec fn name_views(names: Seq<String>) -> Seq<Seq<char>> {
    Seq::new(names.len(), |i: int| names[i]@)
}

/// Cuts a name down to the 15 characters that the table keeps.
pub fn clip_name(name: &str) -> (kept: String)
    ensures
        kept@ == clipped(name@),
{
    if name.unicode_len() > NAME_LEN {
        let head = name.substring_char(0, NAME_LEN);
        assert(head@ =~= name@.take(15));
        head.to_owned()
    } else {
        name.to_owned()
    }
}

/// The first row at or after `from` whose score `score` beats; the number
/// of rows if it beats none.
pub open spec fn first_beaten(values: Seq<u32>, score: u32, from: int) -> int
    decreases values.len() - from,
{
    if from < 0 || from >= values.len() {
        values.len() as int
    } else if score > values[from] {
        from
    } else {
        first_beaten(values, score, from + 1)
    }
}

/// Whether `score` earns a row in the table: the table has a row for each
/// name, and the score beats that of the last row.
pub open spec fn earns_a_row(names: Seq<String>, values: Seq<u32>, score: u32) -> bool {
    names.len() == values.len() && values.len() > 0 && score > values.last()
}

impl HighScores {
    /// A table of `rows` rows, each with the name `-` and no score.
    pub fn empty(rows: usize) -> (table: HighScores)
        ensures
            table.names@.len() == rows,
            table.values@.len() == rows,
            forall|i: int| 0 <= i < rows ==> table.values@[i] == 0,
            forall|i: int| 0 <= i < rows ==> (#[trigger] table.names@[i])@ == seq!['-'],
    {
        let mut names: Vec<String> = Vec::new();
        let mut values: Vec<u32> = Vec::new();
        let mut i: usize = 0;
        while i < rows
            invariant
                i <= rows,
                names@.len() == i,
                values@.len() == i,
                forall|k: int| 0 <= k < i ==> values@[k] == 0,
                forall|k: int| 0 <= k < i ==> (#[trigger] names@[k])@ == seq!['-'],
            decreases rows - i,
        {
            let dash = "-".to_string();
            proof {
                reveal_strlit("-");
            }
            names.push(dash);
            values.push(0);
            i += 1;
        }
        HighScores { names, values }
    }

    /// Enters a score into the table if it beats the score of the last
    /// row: the new row stands before the first row that it beats, the
    /// rows from there on move down by one, and the last row leaves. Of the
    /// name the first 15 characters are kept. Returns the place of the new
    /// row, or `None` where the table stays as it is.
    pub fn record(&mut self, name: String, score: u32) -> (place: Option<usize>)
        ensures
            place is Some <==> earns_a_row(old(self).names@, old(self).values@, score),
            place is None ==> final(self).names@ == old(self).names@ && final(self).values@ == old(self).values@,
            place matches Some(at) ==> {
                &&& at == first_beaten(old(self).values@, score, 0)
                &&& at < old(self).values@.len()
                &&& final(self).values@ == old(self).values@.insert(at as int, score).drop_last()
                &&& name_views(final(self).names@) == name_views(old(self).names@).insert(
                    at as int,
                    clipped(name@),
                ).drop_last()
            },
    {
        let n = self.values.len();
        if self.names.len() != n || n == 0 || score <= self.values[n - 1] {
            return None;
        }
        let mut at: usize = 0;
        while at < n && score <= self.values[at]
            invariant
                n == self.values@.len(),
                n == self.names@.len(),
                self.values@ == old(self).values@,
                self.names@ == old(self).names@,
                at < n,
                first_beaten(self.values@, score, at as int) == first_beaten(self.values@, score, 0),
                score > self.values@[n - 1],
            decreases n - at,
        {
            at += 1;
        }
        self.values.insert(at, score);
        self.values.pop();
        let kept = clip_name(name.as_str());
        self.names.insert(at, kept);
        self.names.pop();
        assert(self.values@ =~= old(self).values@.insert(at as int, score).drop_last());
        assert(name_views(self.names@) =~= name_views(old(self).names@).insert(
            at as int,
            clipped(name@),
        ).drop_last());
        Some(at)
    }
}

} // verus!
