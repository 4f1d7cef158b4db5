//! Flux queries for reading sensor measurements from InfluxDB.
//!
//! A query is a list of pipeline stages, joined with spaces when it is sent.

use vstd::prelude::*;

verus! {

/// A Flux query under construction.
#[derive(Clone)]
pub struct InfluxQuery {
    query: Vec<String>,
}

/// A named measurement of a zone and the query that reads it.
pub struct InfluxMeasurement {
    pub measurement: String,
    pub query: InfluxQuery,
}

impl View for InfluxQuery {
    type V = Seq<Seq<char>>;

    closed spec fn view(&self) -> Seq<Seq<char>> {
        self.query@.map_values(|s: String| s@)
    }
}

/// `from(bucket: "<bucket>")`
pub open spec fn from_stage(bucket: Seq<char>) -> Seq<char> {
    "from(bucket: \""@ + bucket + "\")"@
}

/// `|> range(start: <start>, stop: <stop>)`, or without the stop.
pub open spec fn range_stage(start: Seq<char>, stop: Option<Seq<char>>) -> Seq<char> {
    match stop {
        Some(stop) => "|> range(start: "@ + start + ", stop: "@ + stop + ")"@,
        None => "|> range(start: "@ + start + ")"@,
    }
}

/// `|> filter(fn: (r) => r["<tag>"] == "<value>")`
pub open spec fn filter_stage(tag: Seq<char>, value: Seq<char>) -> Seq<char> {
    "|> filter(fn: (r) => r[\""@ + tag + "\"] == \""@ + value + "\")"@
}

/// The stages separated by single spaces.
pub open spec fn join_stages(stages: Seq<Seq<char>>) -> Seq<char>
    decreases stages.len(),
{
    if stages.len() == 0 {
        Seq::empty()
    } else if stages.len() == 1 {
        stages[0]
    } else {
        join_stages(stages.drop_last()) + " "@ + stages.last()
    }
}

impl InfluxQuery {
    /// A query over `bucket` from `start`, up to `stop` if given.
    pub fn new(bucket: &str, start: &str, stop: Option<&str>) -> (r: InfluxQuery)
        ensures
            r@ == seq![
                from_stage(bucket@),
                range_stage(
                    start@,
                    match stop {
                        Some(s) => Some(s@),
                        None => None,
                    },
                ),
            ],
    {
        let mut query: Vec<String> = Vec::new();
        let mut from = String::from_str("from(bucket: \"");
        from.append(bucket);
        from.append("\")");
        query.push(from);

        let mut range = String::from_str("|> range(start: ");
        range.append(start);
        match stop {
            Some(stop) => {
                range.append(", stop: ");
                range.append(stop);
                range.append(")");
            },
            None => {
                range.append(")");
            },
        }
        query.push(range);
        let r = InfluxQuery { query };
        assert(r@ =~= seq![
            from_stage(bucket@),
            range_stage(
                start@,
                match stop {
                    Some(s) => Some(s@),
                    None => None,
                },
            ),
        ]);
        r
    }

    /// Keeps the records whose `tag` equals `value`.
    pub fn filter(&mut self, tag: &str, value: &str)
        ensures
            final(self)@ == old(self)@.push(filter_stage(tag@, value@)),
    {
        let mut stage = String::from_str("|> filter(fn: (r) => r[\"");
        stage.append(tag);
        stage.append("\"] == \"");
        stage.append(value);
        stage.append("\")");
        let ghost before = self@;
        self.query.push(stage);
        assert(self@ =~= before.push(filter_stage(tag@, value@)));
    }

    /// Keeps the records that match every `(tag, value)` pair, one filter each, in order.
    pub fn filter_tags(&mut self, tags: &Vec<(String, String)>)
        ensures
            final(self)@ == old(self)@ + tags@.map_values(
                |t: (String, String)| filter_stage(t.0@, t.1@),
            ),
    {
        let ghost start = self@;
        let mut i: usize = 0;
        while i < tags.len()
            invariant
                i <= tags@.len(),
                self@ == start + tags@.take(i as int).map_values(
                    |t: (String, String)| filter_stage(t.0@, t.1@),
                ),
            decreases tags@.len() - i,
        {
            self.filter(tags[i].0.as_str(), tags[i].1.as_str());
            assert(tags@.take(i + 1).map_values(|t: (String, String)| filter_stage(t.0@, t.1@))
                =~= tags@.take(i as int).map_values(
                |t: (String, String)| filter_stage(t.0@, t.1@),
            ).push(filter_stage(tags@[i as int].0@, tags@[i as int].1@)));
            i += 1;
        }
        assert(tags@.take(i as int) =~= tags@);
    }

    /// Keeps the last record of each series.
    pub fn last(&mut self)
        ensures
            final(self)@ == old(self)@.push("|> last()"@),
    {
        let ghost before = self@;
        self.query.push(String::from_str("|> last()"));
        assert(self@ =~= before.push("|> last()"@));
    }

    /// The query text: the stages separated by spaces.
    pub fn get_query_string(&self) -> (r: String)
        ensures
            r@ == join_stages(self@),
    {
        let mut r = String::new();
        let mut i: usize = 0;
        while i < self.query.len()
            invariant
                i <= self.query@.len(),
                r@ == join_stages(self@.take(i as int)),
            decreases self.query@.len() - i,
        {
            assert(self@.take(i + 1).drop_last() =~= self@.take(i as int));
            if i > 0 {
                r.append(" ");
            } else {
                assert(self@.take(0) =~= Seq::<Seq<char>>::empty());
            }
            r.append(self.query[i].as_str());
            i += 1;
        }
        assert(self@.take(i as int) =~= self@);
        r
    }
}

} // verus!
