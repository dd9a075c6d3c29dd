//! Turning the metric objects a plugin emitted into the agent's metrics.
use vstd::prelude::*;

use crate::assoc::{entries_map, keys_unique, store_entry};
use crate::platform::now_ms;
use crate::text::concat_str;

verus! {

/// What the agent reads from one metric object a plugin emitted: `name`
/// when it is a string, the value (of whatever type the caller reads it
/// as), and the entries of the `labels` object in order, each with its
/// value when that is a string.
pub struct MetricJson<V> {
    pub name: Option<String>,
    pub value: V,
    pub labels: Option<Vec<(String, Option<String>)>>,
}

/// A metric produced by a plugin, ready to be batched.
pub struct PluginMetric<V> {
    pub name: String,
    pub labels: Vec<(String, String)>,
    pub value: V,
    pub timestamp_ms: i64,
}

/// The label entries of an object, by view.
pub open spec fn label_entries(labels: Option<Vec<(String, Option<String>)>>) -> Seq<(Seq<char>, Option<Seq<char>>)> {
    match labels {
        Some(v) => v@.map_values(
            |e: (String, Option<String>)|
                (
                    e.0@,
                    match e.1 {
                        Some(s) => Some(s@),
                        None => None,
                    },
                ),
        ),
        None => Seq::empty(),
    }
}

/// The metric's name: `plugin.` before the emitted name, or before
/// `plugin.unknown` when the object has no string name.
pub open spec fn plugin_metric_name(name: Option<Seq<char>>) -> Seq<char> {
    "plugin."@ + match name {
        Some(n) => n,
        None => "plugin.unknown"@,
    }
}

/// The metric's labels: `plugin` set to the plugin's name, then each label
/// of the object whose value is a string, in order, a later one replacing
/// an earlier one with the same key (the object's own `plugin` label too).
pub open spec fn plugin_labels(plugin: Seq<char>, entries: Seq<(Seq<char>, Option<Seq<char>>)>) -> Map<
    Seq<char>,
    Seq<char>,
>
    decreases entries.len(),
{
    if entries.len() == 0 {
        Map::<Seq<char>, Seq<char>>::empty().insert("plugin"@, plugin)
    } else {
        let m = plugin_labels(plugin, entries.drop_last());
        match entries.last().1 {
            Some(v) => m.insert(entries.last().0, v),
            None => m,
        }
    }
}

/// A metric is the one the object `j` of plugin `plugin` gives, stamped `now_ms`.
pub open spec fn shaped<V>(plugin: Seq<char>, j: MetricJson<V>, now_ms: i64, m: PluginMetric<V>) -> bool {
    &&& m.name@ == plugin_metric_name(
        match j.name {
            Some(n) => Some(n@),
            None => None,
        },
    )
    &&& keys_unique(m.labels@)
    &&& entries_map(m.labels@) == plugin_labels(plugin, label_entries(j.labels))
    &&& m.value == j.value
    &&& m.timestamp_ms == now_ms
}

/// The objects that were read, in order (those that could not be read are `None`).
pub open spec fn read_objects<V>(parsed: Seq<Option<MetricJson<V>>>) -> Seq<MetricJson<V>>
    decreases parsed.len(),
{
    if parsed.len() == 0 {
        Seq::empty()
    } else {
        let rest = read_objects(parsed.drop_last());
        match parsed.last() {
            Some(j) => rest.push(j),
            None => rest,
        }
    }
}

fn label_map(plugin_name: &str, labels: &Option<Vec<(String, Option<String>)>>) -> (out: Vec<(String, String)>)
    ensures
        keys_unique(out@),
        entries_map(out@) == plugin_labels(plugin_name@, label_entries(*labels)),
{
    let mut out: Vec<(String, String)> = Vec::new();
    proof {
        assert(entries_map(out@) =~= Map::<Seq<char>, Seq<char>>::empty());
    }
    store_entry(&mut out, "plugin", String::from_str(plugin_name));
    proof {
        reveal_strlit("plugin");
    }
    match labels {
        None => {
            assert(label_entries(*labels) =~= Seq::<(Seq<char>, Option<Seq<char>>)>::empty());
        },
        Some(v) => {
            let ghost es = label_entries(*labels);
            let mut i: usize = 0;
            while i < v.len()
                invariant
                    i <= v@.len(),
                    es == label_entries(*labels),
                    *labels == Some(*v),
                    es.len() == v@.len(),
                    keys_unique(out@),
                    entries_map(out@) == plugin_labels(plugin_name@, es.subrange(0, i as int)),
                decreases v@.len() - i,
            {
                proof {
                    assert(es.subrange(0, i + 1).drop_last() =~= es.subrange(0, i as int));
                }
                match &v[i].1 {
                    Some(val) => {
                        store_entry(&mut out, v[i].0.as_str(), val.clone());
                    },
                    None => {},
                }
                i = i + 1;
            }
            assert(es.subrange(0, i as int) =~= es);
        },
    }
    out
}

/// The metrics a plugin's emitted objects give, stamped `now_ms`: one per
/// object that could be read, in order; objects that could not be read
/// (`None`) are skipped.
pub fn plugin_metrics_at<V>(plugin_name: &str, parsed: Vec<Option<MetricJson<V>>>, now_ms: i64) -> (out: Vec<
    PluginMetric<V>,
>)
    ensures
        out@.len() == read_objects(parsed@).len(),
        forall|k: int| 0 <= k < out@.len() ==> shaped(plugin_name@, #[trigger] read_objects(parsed@)[k], now_ms, out@[k]),
{
    let ghost orig = parsed@;
    let total = parsed.len();
    let mut parsed = parsed;
    let mut out: Vec<PluginMetric<V>> = Vec::new();
    let mut done: usize = 0;
    while parsed.len() > 0
        invariant
            total == orig.len(),
            done + parsed@.len() == orig.len(),
            parsed@ == orig.subrange(done as int, orig.len() as int),
            out@.len() == read_objects(orig.subrange(0, done as int)).len(),
            forall|k: int|
                0 <= k < out@.len() ==> shaped(plugin_name@, #[trigger] read_objects(orig.subrange(0, done as int))[k], now_ms, out@[k]),
        decreases parsed@.len(),
    {
        let item = parsed.remove(0);
        let ghost before = read_objects(orig.subrange(0, done as int));
        proof {
            assert(orig.subrange(0, done + 1).drop_last() =~= orig.subrange(0, done as int));
            assert(item == orig[done as int]);
        }
        done = done + 1;
        proof {
            assert(parsed@ =~= orig.subrange(done as int, orig.len() as int));
        }
        match item {
            Some(j) => {
                let labels = label_map(plugin_name, &j.labels);
                let name = match &j.name {
                    Some(n) => concat_str("plugin.", n.as_str()),
                    None => concat_str("plugin.", "plugin.unknown"),
                };
                proof {
                    reveal_strlit("plugin.");
                    reveal_strlit("plugin.unknown");
                }
                let ghost jv = j;
                let m = PluginMetric { name, labels, value: j.value, timestamp_ms: now_ms };
                assert(shaped(plugin_name@, jv, now_ms, m));
                out.push(m);
                proof {
                    assert(read_objects(orig.subrange(0, done as int)) =~= before.push(jv));
                    assert forall|k: int| 0 <= k < out@.len() implies shaped(
                        plugin_name@,
                        #[trigger] read_objects(orig.subrange(0, done as int))[k],
                        now_ms,
                        out@[k],
                    ) by {
                        if k < before.len() {
                            assert(read_objects(orig.subrange(0, done as int))[k] == before[k]);
                        }
                    }
                }
            },
            None => {
                assert(read_objects(orig.subrange(0, done as int)) =~= before);
            },
        }
    }
    assert(orig.subrange(0, done as int) =~= orig);
    out
}

/// The metrics a plugin's emitted objects give, stamped with the current
/// time (see `plugin_metrics_at`; the time is the clock's).
pub fn parse_plugin_metrics<V>(plugin_name: &str, parsed: Vec<Option<MetricJson<V>>>) -> (out: Vec<PluginMetric<V>>)
    ensures
        out@.len() == read_objects(parsed@).len(),
        forall|k: int|
            0 <= k < out@.len() ==> shaped(plugin_name@, #[trigger] read_objects(parsed@)[k], out@[0].timestamp_ms, out@[k]),
{
    let stamp = now_ms();
    let ghost objects = read_objects(parsed@);
    let out = plugin_metrics_at(plugin_name, parsed, stamp);
    assert(out@.len() > 0 ==> shaped(plugin_name@, objects[0], stamp, out@[0]));
    out
}

} // verus!
