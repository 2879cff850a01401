//! Threshold alerts over named metrics: a registry of alert rules,
//! keyed by a unique id, and the evaluation step that raises and
//! resolves them against one batch of metric readings. Thresholds and
//! metric values are in thousandths of a unit.
use vstd::prelude::*;
use crate::{element_at_mut, seq_view};

verus! {

/// How a metric reading is compared against the threshold.
pub enum AlertOperator {
    GreaterThan,
    LessThan,
    EqualTo,
}

impl Clone for AlertOperator {
    fn clone(&self) -> (res: Self)
        ensures
            res == *self,
    {
        match self {
            AlertOperator::GreaterThan => AlertOperator::GreaterThan,
            AlertOperator::LessThan => AlertOperator::LessThan,
            AlertOperator::EqualTo => AlertOperator::EqualTo,
        }
    }
}

/// One alert rule. `threshold` is in thousandths of the metric's unit.
pub struct AlertConfig {
    pub id: String,
    pub name: String,
    pub metric: String,
    pub threshold: i64,
    pub operator: AlertOperator,
    pub enabled: bool,
    pub description: Option<String>,
}

/// Mathematical model of `AlertConfig`.
pub ghost struct AlertConfigView {
    pub id: Seq<char>,
    pub name: Seq<char>,
    pub metric: Seq<char>,
    pub threshold: i64,
    pub operator: AlertOperator,
    pub enabled: bool,
    pub description: Option<Seq<char>>,
}

impl View for AlertConfig {
    type V = AlertConfigView;

    open spec fn view(&self) -> AlertConfigView {
        AlertConfigView {
            id: self.id@,
            name: self.name@,
            metric: self.metric@,
            threshold: self.threshold,
            operator: self.operator,
            enabled: self.enabled,
            description: match self.description {
                Some(ref d) => Some(d@),
                None => None,
            },
        }
    }
}

/// One registered alert: its rule and whether it is currently raised.
pub struct Alert {
    pub config: AlertConfig,
    pub triggered: bool,
    pub last_triggered: Option<i64>,
}

/// Mathematical model of `Alert`.
pub ghost struct AlertView {
    pub config: AlertConfigView,
    pub triggered: bool,
    pub last_triggered: Option<i64>,
}

impl View for Alert {
    type V = AlertView;

    open spec fn view(&self) -> AlertView {
        AlertView { config: self.config@, triggered: self.triggered, last_triggered: self.last_triggered }
    }
}

/// Why a registry operation was refused; each variant carries the id
/// it is about.
#[derive(Debug)]
pub enum AlertError {
    NotFound(String),
    AlreadyExists(String),
}

/// One named metric reading, in thousandths of its unit.
pub struct MetricSample {
    pub name: String,
    pub value: i64,
}

/// Mathematical model of `MetricSample`.
pub ghost struct MetricSampleView {
    pub name: Seq<char>,
    pub value: i64,
}

impl View for MetricSample {
    type V = MetricSampleView;

    open spec fn view(&self) -> MetricSampleView {
        MetricSampleView { name: self.name@, value: self.value }
    }
}

/// Whether some alert of the list carries this id.
pub open spec fn has_alert(s: Seq<AlertView>, id: Seq<char>) -> bool {
    exists|i: int| 0 <= i < s.len() && s[i].config.id == id
}

/// The first alert carrying this id, scanning from the front.
pub open spec fn find_alert(s: Seq<AlertView>, id: Seq<char>) -> Option<AlertView>
    decreases s.len(),
{
    if s.len() == 0 {
        None
    } else if s[0].config.id == id {
        Some(s[0])
    } else {
        find_alert(s.drop_first(), id)
    }
}

/// The list with the first alert of this id taken out.
pub open spec fn remove_alert_spec(s: Seq<AlertView>, id: Seq<char>) -> Seq<AlertView>
    decreases s.len(),
{
    if s.len() == 0 {
        s
    } else if s[0].config.id == id {
        s.drop_first()
    } else {
        seq![s[0]] + remove_alert_spec(s.drop_first(), id)
    }
}

/// The first reading of the named metric, scanning from the front.
pub open spec fn lookup_metric(s: Seq<MetricSampleView>, name: Seq<char>) -> Option<i64>
    decreases s.len(),
{
    if s.len() == 0 {
        None
    } else if s[0].name == name {
        Some(s[0].value)
    } else {
        lookup_metric(s.drop_first(), name)
    }
}

/// Whether a reading satisfies the rule's comparison.
pub open spec fn eval_op(op: AlertOperator, value: i64, threshold: i64) -> bool {
    match op {
        AlertOperator::GreaterThan => value > threshold,
        AlertOperator::LessThan => value < threshold,
        AlertOperator::EqualTo => value == threshold,
    }
}

/// One evaluation step of one alert against one batch of readings: a
/// disabled alert and one whose metric was not reported stay as they
/// are; otherwise the alert is raised when the comparison first holds —
/// recording the time — and resolved when it first stops holding.
pub open spec fn alert_step(a: AlertView, metrics: Seq<MetricSampleView>, now_ms: i64) -> AlertView {
    if !a.config.enabled {
        a
    } else {
        match lookup_metric(metrics, a.config.metric) {
            None => a,
            Some(v) => {
                let should = eval_op(a.config.operator, v, a.config.threshold);
                if should && !a.triggered {
                    AlertView { triggered: true, last_triggered: Some(now_ms), ..a }
                } else if !should && a.triggered {
                    AlertView { triggered: false, ..a }
                } else {
                    a
                }
            },
        }
    }
}

/// `find_alert` returns the alert at the first matching position.
proof fn lemma_find_alert_at(s: Seq<AlertView>, id: Seq<char>, j: int)
    requires
        0 <= j < s.len(),
        forall|q: int| 0 <= q < j ==> s[q].config.id != id,
        s[j].config.id == id,
    ensures
        find_alert(s, id) == Some(s[j]),
    decreases j,
{
    if j > 0 {
        lemma_find_alert_at(s.drop_first(), id, j - 1);
    }
}

/// `remove_alert_spec` splits the list at the first matching position.
proof fn lemma_remove_alert_at(s: Seq<AlertView>, id: Seq<char>, j: int)
    requires
        0 <= j < s.len(),
        forall|q: int| 0 <= q < j ==> s[q].config.id != id,
        s[j].config.id == id,
    ensures
        remove_alert_spec(s, id) == s.take(j) + s.skip(j + 1),
    decreases j,
{
    if j == 0 {
        assert(remove_alert_spec(s, id) =~= s.take(0) + s.skip(1));
    } else {
        lemma_remove_alert_at(s.drop_first(), id, j - 1);
        let t = s.drop_first();
        assert(remove_alert_spec(s, id) == seq![s[0]] + (t.take(j - 1) + t.skip(j)));
        assert(seq![s[0]] + (t.take(j - 1) + t.skip(j)) =~= s.take(j) + s.skip(j + 1));
    }
}

/// `lookup_metric` returns the reading at the first matching position.
proof fn lemma_lookup_metric_at(s: Seq<MetricSampleView>, name: Seq<char>, j: int)
    requires
        0 <= j < s.len(),
        forall|q: int| 0 <= q < j ==> s[q].name != name,
        s[j].name == name,
    ensures
        lookup_metric(s, name) == Some(s[j].value),
    decreases j,
{
    if j > 0 {
        lemma_lookup_metric_at(s.drop_first(), name, j - 1);
    }
}

/// `lookup_metric` finds nothing when no reading carries the name.
proof fn lemma_lookup_metric_none(s: Seq<MetricSampleView>, name: Seq<char>)
    requires
        forall|q: int| 0 <= q < s.len() ==> s[q].name != name,
    ensures
        lookup_metric(s, name) is None,
    decreases s.len(),
{
    if s.len() > 0 {
        lemma_lookup_metric_none(s.drop_first(), name);
    }
}

/// The registry of alert rules, in registration order, ids unique.
pub struct AlertManager {
    alerts: Vec<Alert>,
}

impl AlertManager {
    /// The registered alerts, in registration order.
    pub closed spec fn alerts_seq(&self) -> Seq<Alert> {
        self.alerts@
    }

    /// The models of the registered alerts.
    pub open spec fn alert_views(&self) -> Seq<AlertView> {
        seq_view(self.alerts_seq())
    }

    /// No two registered alerts share an id.
    pub open spec fn wf(&self) -> bool {
        forall|i: int, j: int|
            0 <= i < j < self.alert_views().len() ==> self.alert_views()[i].config.id
                != self.alert_views()[j].config.id
    }

    /// An empty registry.
    pub fn new() -> (r: AlertManager)
        ensures
            r.wf(),
            r.alert_views() == Seq::<AlertView>::empty(),
    {
        let r = AlertManager { alerts: Vec::new() };
        proof {
            assert(r.alert_views() =~= Seq::<AlertView>::empty());
        }
        r
    }

    /// Registers a new rule, not yet raised. Refused — and the registry
    /// left as it is — exactly when the id is already taken; the error
    /// then carries that id.
    pub fn add_alert(&mut self, config: AlertConfig) -> (r: Result<(), AlertError>)
        requires
            old(self).wf(),
        ensures
            final(self).wf(),
            r is Ok <==> !has_alert(old(self).alert_views(), config@.id),
            r is Ok ==> final(self).alert_views() == old(self).alert_views().push(
                (AlertView { config: config@, triggered: false, last_triggered: None }),
            ),
            r is Err ==> {
                &&& final(self).alert_views() == old(self).alert_views()
                &&& r->Err_0 is AlreadyExists
                &&& (match r->Err_0 {
                    AlertError::AlreadyExists(id) => id@ == config@.id,
                    AlertError::NotFound(_) => false,
                })
            },
    {
        let n = self.alerts.len();
        let mut i: usize = 0;
        while i < n
            invariant
                *self == *old(self),
                old(self).wf(),
                n == self.alert_views().len(),
                i <= n,
                forall|q: int| 0 <= q < i ==> self.alert_views()[q].config.id != config@.id,
            decreases n - i,
        {
            if self.alerts[i].config.id == config.id {
                proof {
                    assert(0 <= i < old(self).alert_views().len() && old(self).alert_views()[
                    i as int].config.id == config@.id);
                }
                return Err(AlertError::AlreadyExists(config.id));
            }
            i = i + 1;
        }
        let ghost before = self.alert_views();
        self.alerts.push(Alert { config, triggered: false, last_triggered: None });
        proof {
            assert(self.alert_views() =~= before.push(self.alerts@.last()@));
            assert forall|a: int, b: int|
                0 <= a < b < self.alert_views().len() implies self.alert_views()[a].config.id
                != self.alert_views()[b].config.id by {
                if b == self.alert_views().len() - 1 {
                    assert(before[a].config.id != self.alert_views()[b].config.id);
                }
            }
        }
        Ok(())
    }

    /// Takes the rule with this id out of the registry. Refused exactly
    /// when no rule carries the id; the error then carries it.
    pub fn remove_alert(&mut self, id: &str) -> (r: Result<(), AlertError>)
        requires
            old(self).wf(),
        ensures
            final(self).wf(),
            r is Ok <==> has_alert(old(self).alert_views(), id@),
            final(self).alert_views() == remove_alert_spec(old(self).alert_views(), id@),
            r is Err ==> {
                &&& final(self).alert_views() == old(self).alert_views()
                &&& (match r->Err_0 {
                    AlertError::NotFound(e) => e@ == id@,
                    AlertError::AlreadyExists(_) => false,
                })
            },
    {
        let key = id.to_owned();
        let n = self.alerts.len();
        let mut i: usize = 0;
        while i < n
            invariant
                *self == *old(self),
                old(self).wf(),
                key@ == id@,
                n == self.alert_views().len(),
                i <= n,
                forall|q: int| 0 <= q < i ==> self.alert_views()[q].config.id != id@,
            decreases n - i,
        {
            if self.alerts[i].config.id == key {
                let ghost before = self.alert_views();
                proof {
                    assert(0 <= i < before.len() && before[i as int].config.id == id@);
                    lemma_remove_alert_at(before, id@, i as int);
                }
                self.alerts.remove(i);
                proof {
                    assert(self.alert_views() =~= before.take(i as int) + before.skip(i + 1));
                    assert forall|a: int, b: int|
                        0 <= a < b < self.alert_views().len() implies self.alert_views()[
                        a].config.id != self.alert_views()[b].config.id by {
                        let wa = if a < i as int { a } else { a + 1 };
                        let wb = if b < i as int { b } else { b + 1 };
                        assert(self.alert_views()[a] == before[wa]);
                        assert(self.alert_views()[b] == before[wb]);
                    }
                }
                return Ok(());
            }
            i = i + 1;
        }
        proof {
            assert(remove_alert_spec(self.alert_views(), id@) =~= self.alert_views()) by {
                lemma_remove_none(self.alert_views(), id@);
            }
        }
        Err(AlertError::NotFound(id.to_owned()))
    }

    /// The rule with this id, if one is registered.
    pub fn get_alert(&self, id: &str) -> (r: Option<&Alert>)
        ensures
            match r {
                Some(a) => find_alert(self.alert_views(), id@) == Some(a@),
                None => !has_alert(self.alert_views(), id@),
            },
    {
        let key = id.to_owned();
        let n = self.alerts.len();
        let mut i: usize = 0;
        while i < n
            invariant
                key@ == id@,
                n == self.alert_views().len(),
                i <= n,
                forall|q: int| 0 <= q < i ==> self.alert_views()[q].config.id != id@,
            decreases n - i,
        {
            if self.alerts[i].config.id == key {
                proof {
                    lemma_find_alert_at(self.alert_views(), id@, i as int);
                }
                return Some(&self.alerts[i]);
            }
            i = i + 1;
        }
        None
    }

    /// All registered alerts, in registration order.
    pub fn list_alerts(&self) -> (r: Vec<&Alert>)
        ensures
            r@.len() == self.alert_views().len(),
            forall|i: int| 0 <= i < r@.len() ==> r@[i]@ == self.alert_views()[i],
    {
        let mut r: Vec<&Alert> = Vec::new();
        let mut i: usize = 0;
        while i < self.alerts.len()
            invariant
                i <= self.alert_views().len(),
                r@.len() == i,
                forall|q: int| 0 <= q < i ==> r@[q]@ == self.alert_views()[q],
            decreases self.alert_views().len() - i,
        {
            r.push(&self.alerts[i]);
            i = i + 1;
        }
        r
    }

    /// Evaluates every alert against one batch of readings at one
    /// instant: each is raised, resolved or left alone exactly as
    /// `alert_step` says.
    pub fn evaluate_alerts(&mut self, metric_data: &Vec<MetricSample>, now_ms: i64)
        requires
            old(self).wf(),
        ensures
            final(self).wf(),
            final(self).alert_views().len() == old(self).alert_views().len(),
            forall|i: int|
                0 <= i < old(self).alert_views().len() ==> final(self).alert_views()[i]
                    == alert_step(old(self).alert_views()[i], seq_view(metric_data@), now_ms),
    {
        let ghost metrics = seq_view(metric_data@);
        let n = self.alerts.len();
        let mut i: usize = 0;
        while i < n
            invariant
                n == self.alert_views().len(),
                n == old(self).alert_views().len(),
                i <= n,
                forall|q: int|
                    0 <= q < i ==> self.alert_views()[q] == alert_step(
                        old(self).alert_views()[q],
                        metrics,
                        now_ms,
                    ),
                forall|q: int|
                    i <= q < n ==> self.alert_views()[q] == old(self).alert_views()[q],
                metrics == seq_view(metric_data@),
            decreases n - i,
        {
            let ghost pre_views = self.alert_views();
            let a = element_at_mut(&mut self.alerts, i);
            let ghost orig = a@;
            if a.config.enabled {
                let metric_name = a.config.metric.clone();
                match lookup_value(metric_data, &metric_name) {
                    Some(value) => {
                        let should = match a.config.operator {
                            AlertOperator::GreaterThan => value > a.config.threshold,
                            AlertOperator::LessThan => value < a.config.threshold,
                            AlertOperator::EqualTo => value == a.config.threshold,
                        };
                        if should && !a.triggered {
                            a.triggered = true;
                            a.last_triggered = Some(now_ms);
                        } else if !should && a.triggered {
                            a.triggered = false;
                        }
                        proof {
                            assert(should == eval_op(orig.config.operator, value, orig.config.threshold));
                            assert(a@ == alert_step(orig, metrics, now_ms));
                        }
                    },
                    None => {
                        proof {
                            assert(a@ == alert_step(orig, metrics, now_ms));
                        }
                    },
                }
            } else {
                proof {
                    assert(a@ == alert_step(orig, metrics, now_ms));
                }
            }
            proof {
                assert forall|q: int|
                    0 <= q < i + 1 implies self.alert_views()[q] == alert_step(
                    old(self).alert_views()[q],
                    metrics,
                    now_ms,
                ) by {
                    if q < i {
                        assert(pre_views[q] == alert_step(
                            old(self).alert_views()[q],
                            metrics,
                            now_ms,
                        ));
                        assert(self.alert_views()[q] == pre_views[q]);
                    }
                }
                assert forall|q: int|
                    i + 1 <= q < n implies self.alert_views()[q] == old(self).alert_views()[q] by {
                    assert(pre_views[q] == old(self).alert_views()[q]);
                    assert(self.alert_views()[q] == pre_views[q]);
                }
            }
            i = i + 1;
        }
        proof {
            assert forall|a: int, b: int|
                0 <= a < b < self.alert_views().len() implies self.alert_views()[a].config.id
                != self.alert_views()[b].config.id by {
                assert(self.alert_views()[a].config == alert_step(
                    old(self).alert_views()[a],
                    metrics,
                    now_ms,
                ).config);
                assert(alert_step(old(self).alert_views()[a], metrics, now_ms).config == old(
                    self,
                ).alert_views()[a].config);
                assert(alert_step(old(self).alert_views()[b], metrics, now_ms).config == old(
                    self,
                ).alert_views()[b].config);
            }
        }
    }
}

/// Removing a missing id leaves the list as it is.
proof fn lemma_remove_none(s: Seq<AlertView>, id: Seq<char>)
    requires
        forall|q: int| 0 <= q < s.len() ==> s[q].config.id != id,
    ensures
        remove_alert_spec(s, id) == s,
    decreases s.len(),
{
    if s.len() > 0 {
        lemma_remove_none(s.drop_first(), id);
        assert(remove_alert_spec(s, id) =~= s);
    }
}

/// The first reading of the named metric in the batch, as
/// `lookup_metric` finds it.
fn lookup_value(data: &Vec<MetricSample>, name: &String) -> (r: Option<i64>)
    ensures
        r == lookup_metric(seq_view(data@), name@),
{
    let mut j: usize = 0;
    while j < data.len()
        invariant
            j <= data.len(),
            forall|q: int| 0 <= q < j ==> seq_view(data@)[q].name != name@,
        decreases data.len() - j,
    {
        if data[j].name == *name {
            proof {
                lemma_lookup_metric_at(seq_view(data@), name@, j as int);
            }
            return Some(data[j].value);
        }
        j = j + 1;
    }
    proof {
        lemma_lookup_metric_none(seq_view(data@), name@);
    }
    None
}

} // verus!
