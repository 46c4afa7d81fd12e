//! The families of metrics, and how jobs, candidates and active segments are
//! counted in them.

use vstd::prelude::*;
use crate::jobs::{self, parse_media_segment_job_timestamp, MediaSegmentJobRecord};
use crate::normalize::{self, is_terminal_media_segment_job_status};
use crate::outside;
use crate::text;

verus! {

/// How a metric moves.
#[derive(Debug, Clone, Copy, PartialEq, Eq, Structural)]
pub enum MetricKind {
    /// A count that only grows.
    Counter,
    /// A value that is set.
    Gauge,
    /// Observed values by size.
    Histogram,
}

/// A family of metrics: one for each combination of values of its labels.
#[derive(Debug, Clone)]
pub struct MetricFamily {
    pub kind: MetricKind,
    pub name: &'static str,
    pub help: &'static str,
    pub labels: Vec<&'static str>,
}

/// A family of metrics, as a mathematical value.
#[verifier::ext_equal]
pub ghost struct Family {
    pub kind: MetricKind,
    pub name: Seq<char>,
    pub help: Seq<char>,
    pub labels: Seq<Seq<char>>,
}

impl View for MetricFamily {
    type V = Family;

    open spec fn view(&self) -> Family {
        Family {
            kind: self.kind,
            name: self.name@,
            help: self.help@,
            labels: self.labels@.map_values(|l: &'static str| l@),
        }
    }
}

/// Some families, as mathematical values.
pub open spec fn families(v: Seq<MetricFamily>) -> Seq<Family> {
    v.map_values(|f: MetricFamily| f@)
}

fn family(kind: MetricKind, name: &'static str, help: &'static str, labels: Vec<&'static str>) -> (r:
    MetricFamily)
    ensures
        r == (MetricFamily { kind, name, help, labels }),
{
    MetricFamily { kind, name, help, labels }
}

/// The families on serving and streaming.
pub open spec fn serving_families() -> Seq<Family> {
    seq![
        Family {
            kind: MetricKind::Counter,
            name: "elixir_play_decisions_total"@,
            help: "Count of play decisions by mode and network"@,
            labels: seq!["mode"@, "network"@, "container"@, "video_codec"@],
        },
        Family {
            kind: MetricKind::Counter,
            name: "elixir_transcode_starts_total"@,
            help: "Count of transcode start attempts"@,
            labels: seq!["result"@, "container"@, "video_codec"@, "hardware"@],
        },
        Family {
            kind: MetricKind::Counter,
            name: "elixir_registry_actions_total"@,
            help: "Count of registry actions"@,
            labels: seq!["action"@, "result"@],
        },
        Family {
            kind: MetricKind::Counter,
            name: "elixir_wan_events_total"@,
            help: "Count of WAN setup events"@,
            labels: seq!["step"@, "result"@],
        },
        Family {
            kind: MetricKind::Histogram,
            name: "elixir_transcode_duration_seconds"@,
            help: "Duration of transcode sessions"@,
            labels: seq!["result"@],
        },
        Family {
            kind: MetricKind::Counter,
            name: "elixir_transcode_errors_total"@,
            help: "Count of transcode errors"@,
            labels: seq!["reason"@],
        },
        Family {
            kind: MetricKind::Counter,
            name: "elixir_segments_served_total"@,
            help: "Count of HLS segments served"@,
            labels: seq!["result"@],
        },
        Family {
            kind: MetricKind::Counter,
            name: "elixir_direct_stream_bytes_total"@,
            help: "Bytes read for direct file playback responses"@,
            labels: seq!["session"@, "user"@, "media_file"@, "delivery"@],
        },
        Family {
            kind: MetricKind::Counter,
            name: "elixir_direct_stream_range_requests_total"@,
            help: "Direct file playback responses by byte range status"@,
            labels: seq!["status"@, "delivery"@, "method"@],
        },
        Family {
            kind: MetricKind::Counter,
            name: "elixir_play_errors_total"@,
            help: "Count of play errors"@,
            labels: seq!["reason"@],
        },
        Family {
            kind: MetricKind::Histogram,
            name: "elixir_play_decision_latency_seconds"@,
            help: "Latency of play decision handler"@,
            labels: seq!["mode"@],
        },
    ]
}

fn list_serving_families() -> (r: Vec<MetricFamily>)
    ensures
        families(r@) == serving_families(),
{
    let mut out: Vec<MetricFamily> = Vec::new();
    out.push(
        family(
            MetricKind::Counter,
            "elixir_play_decisions_total",
            "Count of play decisions by mode and network",
            vec!["mode", "network", "container", "video_codec"],
        ),
    );
    out.push(
        family(
            MetricKind::Counter,
            "elixir_transcode_starts_total",
            "Count of transcode start attempts",
            vec!["result", "container", "video_codec", "hardware"],
        ),
    );
    out.push(
        family(
            MetricKind::Counter,
            "elixir_registry_actions_total",
            "Count of registry actions",
            vec!["action", "result"],
        ),
    );
    out.push(
        family(
            MetricKind::Counter,
            "elixir_wan_events_total",
            "Count of WAN setup events",
            vec!["step", "result"],
        ),
    );
    out.push(
        family(
            MetricKind::Histogram,
            "elixir_transcode_duration_seconds",
            "Duration of transcode sessions",
            vec!["result"],
        ),
    );
    out.push(
        family(
            MetricKind::Counter,
            "elixir_transcode_errors_total",
            "Count of transcode errors",
            vec!["reason"],
        ),
    );
    out.push(
        family(
            MetricKind::Counter,
            "elixir_segments_served_total",
            "Count of HLS segments served",
            vec!["result"],
        ),
    );
    out.push(
        family(
            MetricKind::Counter,
            "elixir_direct_stream_bytes_total",
            "Bytes read for direct file playback responses",
            vec!["session", "user", "media_file", "delivery"],
        ),
    );
    out.push(
        family(
            MetricKind::Counter,
            "elixir_direct_stream_range_requests_total",
            "Direct file playback responses by byte range status",
            vec!["status", "delivery", "method"],
        ),
    );
    out.push(
        family(
            MetricKind::Counter,
            "elixir_play_errors_total",
            "Count of play errors",
            vec!["reason"],
        ),
    );
    out.push(
        family(
            MetricKind::Histogram,
            "elixir_play_decision_latency_seconds",
            "Latency of play decision handler",
            vec!["mode"],
        ),
    );
    proof {
        let all = serving_families();
        assert(out@.len() == all.len());
        assert(out@[0]@ =~= all[0]);
        assert(out@[1]@ =~= all[1]);
        assert(out@[2]@ =~= all[2]);
        assert(out@[3]@ =~= all[3]);
        assert(out@[4]@ =~= all[4]);
        assert(out@[5]@ =~= all[5]);
        assert(out@[6]@ =~= all[6]);
        assert(out@[7]@ =~= all[7]);
        assert(out@[8]@ =~= all[8]);
        assert(out@[9]@ =~= all[9]);
        assert(out@[10]@ =~= all[10]);
        assert(families(out@) =~= all);
    }
    out
}

/// The families on playback decisions, sessions and cleanup.
pub open spec fn playback_families() -> Seq<Family> {
    seq![
        Family {
            kind: MetricKind::Counter,
            name: "elixir_playback_decisions_total"@,
            help: "Playback decisions by mode, delivery, client, network, reason, and hardware path"@,
            labels: seq!["mode"@, "delivery"@, "client_kind"@, "network_kind"@, "decision_reason"@, "hardware"@],
        },
        Family {
            kind: MetricKind::Counter,
            name: "elixir_playback_errors_total"@,
            help: "Playback errors by mode, delivery, client, network, error class, and hardware path"@,
            labels: seq!["mode"@, "delivery"@, "client_kind"@, "network_kind"@, "error_class"@, "hardware"@],
        },
        Family {
            kind: MetricKind::Counter,
            name: "elixir_playback_capacity_rejections_total"@,
            help: "Playback starts rejected by capacity resource and error class"@,
            labels: seq!["resource"@, "mode"@, "delivery"@, "client_kind"@, "network_kind"@, "error_class"@],
        },
        Family {
            kind: MetricKind::Gauge,
            name: "elixir_playback_capacity_level"@,
            help: "Current playback capacity usage by resource, mode, and hardware path"@,
            labels: seq!["resource"@, "mode"@, "hardware"@],
        },
        Family {
            kind: MetricKind::Histogram,
            name: "elixir_playback_hls_playlist_startup_latency_seconds"@,
            help: "Latency from HLS job start request to playlist response"@,
            labels: seq!["mode"@, "delivery"@, "hardware"@],
        },
        Family {
            kind: MetricKind::Histogram,
            name: "elixir_playback_segment_latency_seconds"@,
            help: "Latency of HLS artifact reads"@,
            labels: seq!["result"@, "artifact_kind"@],
        },
        Family {
            kind: MetricKind::Counter,
            name: "elixir_playback_missing_segments_total"@,
            help: "Count of requested HLS artifacts that were missing or unregistered"@,
            labels: seq!["artifact_kind"@],
        },
        Family {
            kind: MetricKind::Counter,
            name: "elixir_playback_adaptive_rendition_switches_total"@,
            help: "Count of observed adaptive rendition switches"@,
            labels: seq!["direction"@, "reason"@],
        },
        Family {
            kind: MetricKind::Counter,
            name: "elixir_playback_session_expirations_total"@,
            help: "Count of playback sessions expired by cleanup"@,
            labels: seq!["reason"@],
        },
        Family {
            kind: MetricKind::Counter,
            name: "elixir_playback_cleanup_actions_total"@,
            help: "Playback cleanup actions by target, reason, and result"@,
            labels: seq!["target"@, "reason"@, "result"@],
        },
        Family {
            kind: MetricKind::Counter,
            name: "elixir_playback_process_exits_total"@,
            help: "Playback FFmpeg process cleanup exits by reason, method, and result"@,
            labels: seq!["reason"@, "method"@, "result"@],
        },
    ]
}

fn list_playback_families() -> (r: Vec<MetricFamily>)
    ensures
        families(r@) == playback_families(),
{
    let mut out: Vec<MetricFamily> = Vec::new();
    out.push(
        family(
            MetricKind::Counter,
            "elixir_playback_decisions_total",
            "Playback decisions by mode, delivery, client, network, reason, and hardware path",
            vec!["mode", "delivery", "client_kind", "network_kind", "decision_reason", "hardware"],
        ),
    );
    out.push(
        family(
            MetricKind::Counter,
            "elixir_playback_errors_total",
            "Playback errors by mode, delivery, client, network, error class, and hardware path",
            vec!["mode", "delivery", "client_kind", "network_kind", "error_class", "hardware"],
        ),
    );
    out.push(
        family(
            MetricKind::Counter,
            "elixir_playback_capacity_rejections_total",
            "Playback starts rejected by capacity resource and error class",
            vec!["resource", "mode", "delivery", "client_kind", "network_kind", "error_class"],
        ),
    );
    out.push(
        family(
            MetricKind::Gauge,
            "elixir_playback_capacity_level",
            "Current playback capacity usage by resource, mode, and hardware path",
            vec!["resource", "mode", "hardware"],
        ),
    );
    out.push(
        family(
            MetricKind::Histogram,
            "elixir_playback_hls_playlist_startup_latency_seconds",
            "Latency from HLS job start request to playlist response",
            vec!["mode", "delivery", "hardware"],
        ),
    );
    out.push(
        family(
            MetricKind::Histogram,
            "elixir_playback_segment_latency_seconds",
            "Latency of HLS artifact reads",
            vec!["result", "artifact_kind"],
        ),
    );
    out.push(
        family(
            MetricKind::Counter,
            "elixir_playback_missing_segments_total",
            "Count of requested HLS artifacts that were missing or unregistered",
            vec!["artifact_kind"],
        ),
    );
    out.push(
        family(
            MetricKind::Counter,
            "elixir_playback_adaptive_rendition_switches_total",
            "Count of observed adaptive rendition switches",
            vec!["direction", "reason"],
        ),
    );
    out.push(
        family(
            MetricKind::Counter,
            "elixir_playback_session_expirations_total",
            "Count of playback sessions expired by cleanup",
            vec!["reason"],
        ),
    );
    out.push(
        family(
            MetricKind::Counter,
            "elixir_playback_cleanup_actions_total",
            "Playback cleanup actions by target, reason, and result",
            vec!["target", "reason", "result"],
        ),
    );
    out.push(
        family(
            MetricKind::Counter,
            "elixir_playback_process_exits_total",
            "Playback FFmpeg process cleanup exits by reason, method, and result",
            vec!["reason", "method", "result"],
        ),
    );
    proof {
        let all = playback_families();
        assert(out@.len() == all.len());
        assert(out@[0]@ =~= all[0]);
        assert(out@[1]@ =~= all[1]);
        assert(out@[2]@ =~= all[2]);
        assert(out@[3]@ =~= all[3]);
        assert(out@[4]@ =~= all[4]);
        assert(out@[5]@ =~= all[5]);
        assert(out@[6]@ =~= all[6]);
        assert(out@[7]@ =~= all[7]);
        assert(out@[8]@ =~= all[8]);
        assert(out@[9]@ =~= all[9]);
        assert(out@[10]@ =~= all[10]);
        assert(families(out@) =~= all);
    }
    out
}

/// The families on hardware, performance and reconciliation.
pub open spec fn hardware_families() -> Seq<Family> {
    seq![
        Family {
            kind: MetricKind::Gauge,
            name: "elixir_playback_hardware_readiness_status"@,
            help: "Current playback hardware readiness status by API, OS family, and GPU vendor"@,
            labels: seq!["api"@, "status"@, "os_family"@, "gpu_vendor"@],
        },
        Family {
            kind: MetricKind::Histogram,
            name: "elixir_playback_hardware_probe_duration_seconds"@,
            help: "Duration of playback hardware capability probes"@,
            labels: seq!["api"@, "operation"@, "status"@],
        },
        Family {
            kind: MetricKind::Counter,
            name: "elixir_playback_hardware_probe_failures_total"@,
            help: "Count of playback hardware capability probe failures"@,
            labels: seq!["api"@, "operation"@, "reason"@],
        },
        Family {
            kind: MetricKind::Counter,
            name: "elixir_playback_feasibility_decision_total"@,
            help: "Playback feasibility admission decisions by decision, reason, mode, and client"@,
            labels: seq!["decision"@, "reason"@, "mode"@, "client"@],
        },
        Family {
            kind: MetricKind::Gauge,
            name: "elixir_playback_performance_envelope_status"@,
            help: "Loaded playback performance envelope status by workload class, hardware API, support/performance status, and confidence"@,
            labels: seq!["class"@, "api"@, "status"@, "confidence"@],
        },
        Family {
            kind: MetricKind::Histogram,
            name: "elixir_playback_transcode_realtime_factor"@,
            help: "Observed or certified transcode realtime factor for admitted playback workloads"@,
            labels: seq!["class"@, "api"@, "pipeline"@],
        },
        Family {
            kind: MetricKind::Counter,
            name: "elixir_playback_transcode_rejected_total"@,
            help: "Playback transcode requests rejected by feasibility admission"@,
            labels: seq!["reason"@, "class"@, "client"@],
        },
        Family {
            kind: MetricKind::Counter,
            name: "elixir_playback_transcode_downgraded_total"@,
            help: "Playback transcode requests downgraded by feasibility admission"@,
            labels: seq!["reason"@, "class"@, "client"@],
        },
        Family {
            kind: MetricKind::Histogram,
            name: "elixir_playback_performance_probe_duration_seconds"@,
            help: "Duration of playback performance envelope probes"@,
            labels: seq!["class"@, "api"@, "status"@],
        },
        Family {
            kind: MetricKind::Counter,
            name: "elixir_reconcile_runs_total"@,
            help: "Count of reconcile runs by result"@,
            labels: seq!["result"@],
        },
        Family {
            kind: MetricKind::Counter,
            name: "elixir_reconcile_actions_total"@,
            help: "Count of reconcile actions by type and result"@,
            labels: seq!["action"@, "result"@],
        },
        Family {
            kind: MetricKind::Counter,
            name: "elixir_owner_release_events_total"@,
            help: "Count of media owner-release lifecycle events"@,
            labels: seq!["action"@, "owner_type"@, "status"@],
        },
    ]
}

fn list_hardware_families() -> (r: Vec<MetricFamily>)
    ensures
        families(r@) == hardware_families(),
{
    let mut out: Vec<MetricFamily> = Vec::new();
    out.push(
        family(
            MetricKind::Gauge,
            "elixir_playback_hardware_readiness_status",
            "Current playback hardware readiness status by API, OS family, and GPU vendor",
            vec!["api", "status", "os_family", "gpu_vendor"],
        ),
    );
    out.push(
        family(
            MetricKind::Histogram,
            "elixir_playback_hardware_probe_duration_seconds",
            "Duration of playback hardware capability probes",
            vec!["api", "operation", "status"],
        ),
    );
    out.push(
        family(
            MetricKind::Counter,
            "elixir_playback_hardware_probe_failures_total",
            "Count of playback hardware capability probe failures",
            vec!["api", "operation", "reason"],
        ),
    );
    out.push(
        family(
            MetricKind::Counter,
            "elixir_playback_feasibility_decision_total",
            "Playback feasibility admission decisions by decision, reason, mode, and client",
            vec!["decision", "reason", "mode", "client"],
        ),
    );
    out.push(
        family(
            MetricKind::Gauge,
            "elixir_playback_performance_envelope_status",
            "Loaded playback performance envelope status by workload class, hardware API, support/performance status, and confidence",
            vec!["class", "api", "status", "confidence"],
        ),
    );
    out.push(
        family(
            MetricKind::Histogram,
            "elixir_playback_transcode_realtime_factor",
            "Observed or certified transcode realtime factor for admitted playback workloads",
            vec!["class", "api", "pipeline"],
        ),
    );
    out.push(
        family(
            MetricKind::Counter,
            "elixir_playback_transcode_rejected_total",
            "Playback transcode requests rejected by feasibility admission",
            vec!["reason", "class", "client"],
        ),
    );
    out.push(
        family(
            MetricKind::Counter,
            "elixir_playback_transcode_downgraded_total",
            "Playback transcode requests downgraded by feasibility admission",
            vec!["reason", "class", "client"],
        ),
    );
    out.push(
        family(
            MetricKind::Histogram,
            "elixir_playback_performance_probe_duration_seconds",
            "Duration of playback performance envelope probes",
            vec!["class", "api", "status"],
        ),
    );
    out.push(
        family(
            MetricKind::Counter,
            "elixir_reconcile_runs_total",
            "Count of reconcile runs by result",
            vec!["result"],
        ),
    );
    out.push(
        family(
            MetricKind::Counter,
            "elixir_reconcile_actions_total",
            "Count of reconcile actions by type and result",
            vec!["action", "result"],
        ),
    );
    out.push(
        family(
            MetricKind::Counter,
            "elixir_owner_release_events_total",
            "Count of media owner-release lifecycle events",
            vec!["action", "owner_type", "status"],
        ),
    );
    proof {
        let all = hardware_families();
        assert(out@.len() == all.len());
        assert(out@[0]@ =~= all[0]);
        assert(out@[1]@ =~= all[1]);
        assert(out@[2]@ =~= all[2]);
        assert(out@[3]@ =~= all[3]);
        assert(out@[4]@ =~= all[4]);
        assert(out@[5]@ =~= all[5]);
        assert(out@[6]@ =~= all[6]);
        assert(out@[7]@ =~= all[7]);
        assert(out@[8]@ =~= all[8]);
        assert(out@[9]@ =~= all[9]);
        assert(out@[10]@ =~= all[10]);
        assert(out@[11]@ =~= all[11]);
        assert(families(out@) =~= all);
    }
    out
}

/// The families on media segments and viewing.
pub open spec fn segment_families() -> Seq<Family> {
    seq![
        Family {
            kind: MetricKind::Counter,
            name: "elixir_media_segment_jobs_total"@,
            help: "Count of media segment job lifecycle transitions"@,
            labels: seq!["provider_kind"@, "job_type"@, "status"@],
        },
        Family {
            kind: MetricKind::Histogram,
            name: "elixir_media_segment_job_duration_seconds"@,
            help: "Duration of completed media segment jobs"@,
            labels: seq!["provider_kind"@, "job_type"@, "status"@],
        },
        Family {
            kind: MetricKind::Gauge,
            name: "elixir_media_segment_job_backlog"@,
            help: "Current media segment jobs by backlog status"@,
            labels: seq!["status"@],
        },
        Family {
            kind: MetricKind::Counter,
            name: "elixir_playback_progress_updates_total"@,
            help: "Count of media interaction progress updates"@,
            labels: seq!["event_type"@, "result"@],
        },
        Family {
            kind: MetricKind::Counter,
            name: "elixir_user_media_state_transitions_total"@,
            help: "Count of user media state transitions"@,
            labels: seq!["item_type"@, "transition"@, "source"@],
        },
        Family {
            kind: MetricKind::Gauge,
            name: "elixir_media_segments_active_total"@,
            help: "Current active media segments by type and source"@,
            labels: seq!["segment_type"@, "source_label"@],
        },
        Family {
            kind: MetricKind::Counter,
            name: "elixir_media_segment_candidates_total"@,
            help: "Count of media segment candidate validation outcomes"@,
            labels: seq!["provider_kind"@, "validation_state"@],
        },
        Family {
            kind: MetricKind::Counter,
            name: "elixir_segment_skip_actions_total"@,
            help: "Count of segment skip actions reported by clients"@,
            labels: seq!["segment_type"@, "behavior"@, "result"@],
        },
        Family {
            kind: MetricKind::Counter,
            name: "elixir_autoplay_transitions_total"@,
            help: "Count of Up Next autoplay state transitions"@,
            labels: seq!["result"@, "reason"@],
        },
    ]
}

fn list_segment_families() -> (r: Vec<MetricFamily>)
    ensures
        families(r@) == segment_families(),
{
    let mut out: Vec<MetricFamily> = Vec::new();
    out.push(
        family(
            MetricKind::Counter,
            "elixir_media_segment_jobs_total",
            "Count of media segment job lifecycle transitions",
            vec!["provider_kind", "job_type", "status"],
        ),
    );
    out.push(
        family(
            MetricKind::Histogram,
            "elixir_media_segment_job_duration_seconds",
            "Duration of completed media segment jobs",
            vec!["provider_kind", "job_type", "status"],
        ),
    );
    out.push(
        family(
            MetricKind::Gauge,
            "elixir_media_segment_job_backlog",
            "Current media segment jobs by backlog status",
            vec!["status"],
        ),
    );
    out.push(
        family(
            MetricKind::Counter,
            "elixir_playback_progress_updates_total",
            "Count of media interaction progress updates",
            vec!["event_type", "result"],
        ),
    );
    out.push(
        family(
            MetricKind::Counter,
            "elixir_user_media_state_transitions_total",
            "Count of user media state transitions",
            vec!["item_type", "transition", "source"],
        ),
    );
    out.push(
        family(
            MetricKind::Gauge,
            "elixir_media_segments_active_total",
            "Current active media segments by type and source",
            vec!["segment_type", "source_label"],
        ),
    );
    out.push(
        family(
            MetricKind::Counter,
            "elixir_media_segment_candidates_total",
            "Count of media segment candidate validation outcomes",
            vec!["provider_kind", "validation_state"],
        ),
    );
    out.push(
        family(
            MetricKind::Counter,
            "elixir_segment_skip_actions_total",
            "Count of segment skip actions reported by clients",
            vec!["segment_type", "behavior", "result"],
        ),
    );
    out.push(
        family(
            MetricKind::Counter,
            "elixir_autoplay_transitions_total",
            "Count of Up Next autoplay state transitions",
            vec!["result", "reason"],
        ),
    );
    proof {
        let all = segment_families();
        assert(out@.len() == all.len());
        assert(out@[0]@ =~= all[0]);
        assert(out@[1]@ =~= all[1]);
        assert(out@[2]@ =~= all[2]);
        assert(out@[3]@ =~= all[3]);
        assert(out@[4]@ =~= all[4]);
        assert(out@[5]@ =~= all[5]);
        assert(out@[6]@ =~= all[6]);
        assert(out@[7]@ =~= all[7]);
        assert(out@[8]@ =~= all[8]);
        assert(families(out@) =~= all);
    }
    out
}
/// Every family, in the order in which they are registered.
pub open spec fn metric_families() -> Seq<Family> {
    serving_families() + playback_families() + hardware_families() + segment_families()
}

fn append_families(all: &mut Vec<MetricFamily>, more: Vec<MetricFamily>)
    ensures
        families(final(all)@) == families(old(all)@) + families(more@),
{
    let mut rest = more;
    let ghost before = all@;
    all.append(&mut rest);
    proof {
        assert(families(all@) =~= families(before) + families(more@));
    }
}

/// Every family, in the order in which they are registered.
pub fn init_metrics() -> (r: Vec<MetricFamily>)
    ensures
        families(r@) == metric_families(),
{
    let mut all = list_serving_families();
    append_families(&mut all, list_playback_families());
    append_families(&mut all, list_hardware_families());
    append_families(&mut all, list_segment_families());
    all
}

/// A number that tells the names of the families apart: it is made of the
/// length of a name and two of its characters.
spec fn name_mark(s: Seq<char>) -> int {
    s.len() * 65536 + s[7] as int * 256 + s[19] as int
}

spec fn serving_marks() -> Seq<int> {
    seq![1798254, 1930337, 1929833, 1537903, 2192498, 1930354, 1864566, 2122861, 2712685, 1601652, 2388078]
}

proof fn lemma_serving_marks()
    ensures
        serving_families().len() == 11,
        serving_marks().len() == 11,
        forall|i: int|
            0 <= i < 11 ==> name_mark((#[trigger] serving_families()[i]).name) == serving_marks()[i],
{
    let all = serving_families();
    assert(name_mark(all[0].name) == 1798254) by {
        reveal_strlit("elixir_play_decisions_total");
    }
    assert(name_mark(all[1].name) == 1930337) by {
        reveal_strlit("elixir_transcode_starts_total");
    }
    assert(name_mark(all[2].name) == 1929833) by {
        reveal_strlit("elixir_registry_actions_total");
    }
    assert(name_mark(all[3].name) == 1537903) by {
        reveal_strlit("elixir_wan_events_total");
    }
    assert(name_mark(all[4].name) == 2192498) by {
        reveal_strlit("elixir_transcode_duration_seconds");
    }
    assert(name_mark(all[5].name) == 1930354) by {
        reveal_strlit("elixir_transcode_errors_total");
    }
    assert(name_mark(all[6].name) == 1864566) by {
        reveal_strlit("elixir_segments_served_total");
    }
    assert(name_mark(all[7].name) == 2122861) by {
        reveal_strlit("elixir_direct_stream_bytes_total");
    }
    assert(name_mark(all[8].name) == 2712685) by {
        reveal_strlit("elixir_direct_stream_range_requests_total");
    }
    assert(name_mark(all[9].name) == 1601652) by {
        reveal_strlit("elixir_play_errors_total");
    }
    assert(name_mark(all[10].name) == 2388078) by {
        reveal_strlit("elixir_play_decision_latency_seconds");
    }
}

spec fn playback_marks() -> Seq<int> {
    seq![2060393, 1863791, 2715745, 1994849, 3436639, 2584685, 2519155, 3240048, 2715763, 2453601, 2322531]
}

proof fn lemma_playback_marks()
    ensures
        playback_families().len() == 11,
        playback_marks().len() == 11,
        forall|i: int|
            0 <= i < 11 ==> name_mark((#[trigger] playback_families()[i]).name) == playback_marks()[i],
{
    let all = playback_families();
    assert(name_mark(all[0].name) == 2060393) by {
        reveal_strlit("elixir_playback_decisions_total");
    }
    assert(name_mark(all[1].name) == 1863791) by {
        reveal_strlit("elixir_playback_errors_total");
    }
    assert(name_mark(all[2].name) == 2715745) by {
        reveal_strlit("elixir_playback_capacity_rejections_total");
    }
    assert(name_mark(all[3].name) == 1994849) by {
        reveal_strlit("elixir_playback_capacity_level");
    }
    assert(name_mark(all[4].name) == 3436639) by {
        reveal_strlit("elixir_playback_hls_playlist_startup_latency_seconds");
    }
    assert(name_mark(all[5].name) == 2584685) by {
        reveal_strlit("elixir_playback_segment_latency_seconds");
    }
    assert(name_mark(all[6].name) == 2519155) by {
        reveal_strlit("elixir_playback_missing_segments_total");
    }
    assert(name_mark(all[7].name) == 3240048) by {
        reveal_strlit("elixir_playback_adaptive_rendition_switches_total");
    }
    assert(name_mark(all[8].name) == 2715763) by {
        reveal_strlit("elixir_playback_session_expirations_total");
    }
    assert(name_mark(all[9].name) == 2453601) by {
        reveal_strlit("elixir_playback_cleanup_actions_total");
    }
    assert(name_mark(all[10].name) == 2322531) by {
        reveal_strlit("elixir_playback_process_exits_total");
    }
}

spec fn hardware_marks() -> Seq<int> {
    seq![2715748, 3108964, 2977892, 2781299, 2846822, 2715758, 2650222, 2781294, 3305574, 1798766, 1995380, 2191205]
}

proof fn lemma_hardware_marks()
    ensures
        hardware_families().len() == 12,
        hardware_marks().len() == 12,
        forall|i: int|
            0 <= i < 12 ==> name_mark((#[trigger] hardware_families()[i]).name) == hardware_marks()[i],
{
    let all = hardware_families();
    assert(name_mark(all[0].name) == 2715748) by {
        reveal_strlit("elixir_playback_hardware_readiness_status");
    }
    assert(name_mark(all[1].name) == 3108964) by {
        reveal_strlit("elixir_playback_hardware_probe_duration_seconds");
    }
    assert(name_mark(all[2].name) == 2977892) by {
        reveal_strlit("elixir_playback_hardware_probe_failures_total");
    }
    assert(name_mark(all[3].name) == 2781299) by {
        reveal_strlit("elixir_playback_feasibility_decision_total");
    }
    assert(name_mark(all[4].name) == 2846822) by {
        reveal_strlit("elixir_playback_performance_envelope_status");
    }
    assert(name_mark(all[5].name) == 2715758) by {
        reveal_strlit("elixir_playback_transcode_realtime_factor");
    }
    assert(name_mark(all[6].name) == 2650222) by {
        reveal_strlit("elixir_playback_transcode_rejected_total");
    }
    assert(name_mark(all[7].name) == 2781294) by {
        reveal_strlit("elixir_playback_transcode_downgraded_total");
    }
    assert(name_mark(all[8].name) == 3305574) by {
        reveal_strlit("elixir_playback_performance_probe_duration_seconds");
    }
    assert(name_mark(all[9].name) == 1798766) by {
        reveal_strlit("elixir_reconcile_runs_total");
    }
    assert(name_mark(all[10].name) == 1995380) by {
        reveal_strlit("elixir_reconcile_actions_total");
    }
    assert(name_mark(all[11].name) == 2191205) by {
        reveal_strlit("elixir_owner_release_events_total");
    }
}

spec fn segment_marks() -> Seq<int> {
    seq![2059636, 2714996, 2125172, 2519143, 2717044, 2256244, 2452852, 2192223, 2187630]
}

proof fn lemma_segment_marks()
    ensures
        segment_families().len() == 9,
        segment_marks().len() == 9,
        forall|i: int|
            0 <= i < 9 ==> name_mark((#[trigger] segment_families()[i]).name) == segment_marks()[i],
{
    let all = segment_families();
    assert(name_mark(all[0].name) == 2059636) by {
        reveal_strlit("elixir_media_segment_jobs_total");
    }
    assert(name_mark(all[1].name) == 2714996) by {
        reveal_strlit("elixir_media_segment_job_duration_seconds");
    }
    assert(name_mark(all[2].name) == 2125172) by {
        reveal_strlit("elixir_media_segment_job_backlog");
    }
    assert(name_mark(all[3].name) == 2519143) by {
        reveal_strlit("elixir_playback_progress_updates_total");
    }
    assert(name_mark(all[4].name) == 2717044) by {
        reveal_strlit("elixir_user_media_state_transitions_total");
    }
    assert(name_mark(all[5].name) == 2256244) by {
        reveal_strlit("elixir_media_segments_active_total");
    }
    assert(name_mark(all[6].name) == 2452852) by {
        reveal_strlit("elixir_media_segment_candidates_total");
    }
    assert(name_mark(all[7].name) == 2192223) by {
        reveal_strlit("elixir_segment_skip_actions_total");
    }
    assert(name_mark(all[8].name) == 2187630) by {
        reveal_strlit("elixir_autoplay_transitions_total");
    }
}
/// No two families have the same name, so that each of them can be registered.
pub proof fn family_names_differ(i: int, j: int)
    requires
        0 <= i < j < metric_families().len(),
    ensures
        metric_families()[i].name != metric_families()[j].name,
{
    lemma_serving_marks();
    lemma_playback_marks();
    lemma_hardware_marks();
    lemma_segment_marks();
    let all = metric_families();
    let marks = serving_marks() + playback_marks() + hardware_marks() + segment_marks();
    assert(name_mark(all[i].name) == marks[i]);
    assert(name_mark(all[j].name) == marks[j]);
    assert(marks[i] != marks[j]);
}

/// Three labels of a job.
pub open spec fn job_labels(job: jobs::Job) -> Seq<Seq<char>> {
    seq![job.provider_kind, job.job_type, job.status]
}

/// Some label values, as mathematical values.
pub open spec fn label_values(v: Seq<&str>) -> Seq<Seq<char>> {
    v.map_values(|l: &str| l@)
}

/// The labels under which a change of a job's status is counted.
pub fn record_media_segment_job_status(job: &MediaSegmentJobRecord) -> (r: Vec<&str>)
    ensures
        label_values(r@) == job_labels(job@),
{
    let r: Vec<&str> = vec![job.provider_kind.as_str(), job.job_type.as_str(), job.status.as_str()];
    proof {
        assert(label_values(r@) =~= job_labels(job@));
    }
    r
}

/// The labels under which the outcome of a candidate is counted.
pub fn record_media_segment_candidate<'a>(provider_kind: &'a str, validation_state: &'a str) -> (r: Vec<
    &'a str,
>)
    ensures
        label_values(r@) == seq![provider_kind@, validation_state@],
{
    let r: Vec<&str> = vec![provider_kind, validation_state];
    proof {
        assert(label_values(r@) =~= seq![provider_kind@, validation_state@]);
    }
    r
}

/// How many milliseconds a job took, where it has ended, its times can be read
/// and it did not end before it began.
pub open spec fn job_millis(job: jobs::Job) -> Option<i64> {
    if !normalize::terminal_status(job.status) {
        None
    } else {
        match (job.started_at, job.finished_at) {
            (Some(start), Some(end)) => match (
                jobs::timestamp_instant(start),
                jobs::timestamp_instant(end),
            ) {
                (Some(from), Some(to)) => lasting(outside::millis_between(from, to)),
                _ => None,
            },
            _ => None,
        }
    }
}

/// A length of time that is not negative.
pub open spec fn lasting(millis: Option<i64>) -> Option<i64> {
    match millis {
        Some(n) => if n < 0 {
            None
        } else {
            Some(n)
        },
        None => None,
    }
}

/// A length of time that is not negative.
pub fn keep_lasting(millis: Option<i64>) -> (r: Option<i64>)
    ensures
        r == lasting(millis),
{
    match millis {
        Some(n) => if n < 0 {
            None
        } else {
            Some(n)
        },
        None => None,
    }
}

/// How many milliseconds to observe for a job, under the labels of its status.
pub fn record_media_segment_job_duration(job: &MediaSegmentJobRecord) -> (r: Option<i64>)
    ensures
        r == job_millis(job@),
{
    if !is_terminal_media_segment_job_status(job.status.as_str()) {
        return None;
    }
    match (&job.started_at, &job.finished_at) {
        (Some(start), Some(end)) => match (
            parse_media_segment_job_timestamp(start.as_str()),
            parse_media_segment_job_timestamp(end.as_str()),
        ) {
            (Some(from), Some(to)) => keep_lasting(outside::milliseconds_between(from, to)),
            _ => None,
        },
        _ => None,
    }
}

/// The labels of an active segment: its type and the label of its source.
pub type ActiveLabels = (Seq<char>, Seq<char>);

/// The order of labels.
pub open spec fn labels_before(a: ActiveLabels, b: ActiveLabels) -> bool {
    text::lex_lt(a.0, b.0) || a.0 == b.0 && text::lex_lt(a.1, b.1)
}

/// The counts with one set: in its old place where its labels are there, else
/// before the first greater labels.
pub open spec fn with_count(
    counts: Seq<(ActiveLabels, i64)>,
    labels: ActiveLabels,
    n: i64,
) -> Seq<(ActiveLabels, i64)>
    decreases counts.len(),
{
    if counts.len() == 0 {
        seq![(labels, n)]
    } else if counts[0].0 == labels {
        seq![(labels, n)] + counts.drop_first()
    } else if labels_before(labels, counts[0].0) {
        seq![(labels, n)] + counts
    } else {
        seq![counts[0]] + with_count(counts.drop_first(), labels, n)
    }
}

/// The counts of some rows by their labels, in order; a later row wins.
pub open spec fn counts_of(rows: Seq<(ActiveLabels, i64)>) -> Seq<(ActiveLabels, i64)>
    decreases rows.len(),
{
    if rows.len() == 0 {
        Seq::empty()
    } else {
        with_count(counts_of(rows.drop_last()), rows.last().0, rows.last().1)
    }
}

/// The count under some labels; none where there is no row for them.
pub open spec fn count_under(counts: Seq<(ActiveLabels, i64)>, labels: ActiveLabels) -> Option<i64>
    decreases counts.len(),
{
    if counts.len() == 0 {
        None
    } else if counts[0].0 == labels {
        Some(counts[0].1)
    } else {
        count_under(counts.drop_first(), labels)
    }
}

/// A zero for each of some labels that no longer have a count.
pub open spec fn zeroes(
    known: Seq<ActiveLabels>,
    counts: Seq<(ActiveLabels, i64)>,
) -> Seq<(ActiveLabels, i64)>
    decreases known.len(),
{
    if known.len() == 0 {
        Seq::empty()
    } else if count_under(counts, known.last()) is None {
        zeroes(known.drop_last(), counts).push((known.last(), 0))
    } else {
        zeroes(known.drop_last(), counts)
    }
}

/// A count of active segments: their type, the label of their source and how
/// many there are.
#[derive(Debug, Clone)]
pub struct ActiveCount {
    pub segment_type: String,
    pub source_label: String,
    pub count: i64,
}

impl View for ActiveCount {
    type V = (ActiveLabels, i64);

    open spec fn view(&self) -> (ActiveLabels, i64) {
        ((self.segment_type@, self.source_label@), self.count)
    }
}

/// Some counts, as mathematical values.
pub open spec fn active_counts(v: Seq<ActiveCount>) -> Seq<(ActiveLabels, i64)> {
    v.map_values(|c: ActiveCount| c@)
}

/// The labels of some counts.
pub open spec fn labels_of(counts: Seq<(ActiveLabels, i64)>) -> Seq<ActiveLabels> {
    counts.map_values(|c: (ActiveLabels, i64)| c.0)
}

fn same_labels(a: &ActiveCount, b: &ActiveCount) -> (r: bool)
    ensures
        r == (a@.0 == b@.0),
{
    text::str_eq(a.segment_type.as_str(), b.segment_type.as_str()) && text::str_eq(
        a.source_label.as_str(),
        b.source_label.as_str(),
    )
}

fn labels_lt(a: &ActiveCount, b: &ActiveCount) -> (r: bool)
    ensures
        r == labels_before(a@.0, b@.0),
{
    text::str_lt(a.segment_type.as_str(), b.segment_type.as_str()) || (text::str_eq(
        a.segment_type.as_str(),
        b.segment_type.as_str(),
    ) && text::str_lt(a.source_label.as_str(), b.source_label.as_str()))
}

fn dup_count(c: &ActiveCount, count: i64) -> (r: ActiveCount)
    ensures
        r@ == (c@.0, count),
{
    ActiveCount { segment_type: c.segment_type.clone(), source_label: c.source_label.clone(), count }
}

fn set_count(counts: &mut Vec<ActiveCount>, row: &ActiveCount)
    ensures
        active_counts(final(counts)@) == with_count(active_counts(old(counts)@), row@.0, row@.1),
{
    let ghost before = active_counts(counts@);
    let mut i: usize = 0;
    proof {
        assert(before.skip(0) =~= before);
        assert(before.take(0) + with_count(before, row@.0, row@.1) =~= with_count(
            before,
            row@.0,
            row@.1,
        ));
    }
    while i < counts.len()
        invariant
            i <= counts@.len(),
            before == active_counts(counts@),
            *counts == *old(counts),
            with_count(before, row@.0, row@.1) == before.take(i as int) + with_count(
                before.skip(i as int),
                row@.0,
                row@.1,
            ),
        decreases counts@.len() - i,
    {
        let ghost rest = before.skip(i as int);
        proof {
            assert(rest[0] == counts@[i as int]@);
            assert(rest.drop_first() =~= before.skip(i + 1));
        }
        if same_labels(&counts[i], row) {
            let new = dup_count(row, row.count);
            counts.set(i, new);
            proof {
                assert(active_counts(counts@) =~= before.take(i as int) + (seq![row@]
                    + rest.drop_first()));
            }
            return;
        }
        if labels_lt(row, &counts[i]) {
            let new = dup_count(row, row.count);
            counts.insert(i, new);
            proof {
                assert(active_counts(counts@) =~= before.take(i as int) + (seq![row@] + rest));
            }
            return;
        }
        proof {
            assert(before.take(i as int) + (seq![rest[0]] + with_count(
                rest.drop_first(),
                row@.0,
                row@.1,
            )) =~= before.take(i + 1) + with_count(before.skip(i + 1), row@.0, row@.1));
        }
        i += 1;
    }
    let new = dup_count(row, row.count);
    counts.push(new);
    proof {
        assert(before.take(i as int) =~= before);
        assert(active_counts(counts@) =~= before + seq![row@]);
    }
}

fn has_count(counts: &Vec<ActiveCount>, known: &ActiveCount) -> (r: bool)
    ensures
        r == (count_under(active_counts(counts@), known@.0) is Some),
{
    let ghost all = active_counts(counts@);
    let mut i: usize = 0;
    proof {
        assert(all.skip(0) =~= all);
    }
    while i < counts.len()
        invariant
            i <= counts@.len(),
            all == active_counts(counts@),
            count_under(all, known@.0) == count_under(all.skip(i as int), known@.0),
        decreases counts@.len() - i,
    {
        proof {
            assert(all.skip(i as int)[0] == counts@[i as int]@);
            assert(all.skip(i as int).drop_first() =~= all.skip(i + 1));
        }
        if same_labels(&counts[i], known) {
            return true;
        }
        i += 1;
    }
    false
}

/// The values to set for active segments: zero under each label of `known` that
/// has no row any more, then the count of each row. `known` becomes what the
/// rows count, in order.
pub fn update_active_media_segment_metrics(known: &mut Vec<ActiveCount>, rows: &Vec<ActiveCount>) -> (r:
    Vec<ActiveCount>)
    ensures
        active_counts(final(known)@) == counts_of(active_counts(rows@)),
        active_counts(r@) == zeroes(
            labels_of(active_counts(old(known)@)),
            counts_of(active_counts(rows@)),
        ) + counts_of(active_counts(rows@)),
{
    let ghost all = active_counts(rows@);
    let mut current: Vec<ActiveCount> = Vec::new();
    let mut i: usize = 0;
    proof {
        assert(active_counts(current@) =~= counts_of(all.take(0)));
    }
    while i < rows.len()
        invariant
            i <= rows@.len(),
            all == active_counts(rows@),
            active_counts(current@) == counts_of(all.take(i as int)),
        decreases rows@.len() - i,
    {
        proof {
            assert(all.take(i + 1).drop_last() =~= all.take(i as int));
            assert(all.take(i + 1).last() == rows@[i as int]@);
        }
        set_count(&mut current, &rows[i]);
        i += 1;
    }
    proof {
        assert(all.take(i as int) =~= all);
    }
    let ghost counts = counts_of(all);
    let ghost seen = labels_of(active_counts(known@));
    let mut out: Vec<ActiveCount> = Vec::new();
    let mut k: usize = 0;
    proof {
        assert(active_counts(out@) =~= zeroes(seen.take(0), counts));
    }
    while k < known.len()
        invariant
            k <= known@.len(),
            *known == *old(known),
            seen == labels_of(active_counts(known@)),
            counts == active_counts(current@),
            active_counts(out@) == zeroes(seen.take(k as int), counts),
        decreases known@.len() - k,
    {
        proof {
            assert(seen.take(k + 1).drop_last() =~= seen.take(k as int));
            assert(seen.take(k + 1).last() == known@[k as int]@.0);
        }
        let ghost before = active_counts(out@);
        if !has_count(&current, &known[k]) {
            let zero = dup_count(&known[k], 0);
            out.push(zero);
            proof {
                assert(active_counts(out@) =~= before.push((known@[k as int]@.0, 0i64)));
            }
        }
        k += 1;
    }
    proof {
        assert(seen.take(k as int) =~= seen);
    }
    let ghost zeros = active_counts(out@);
    let mut c: usize = 0;
    proof {
        assert(zeros + counts.take(0) =~= zeros);
    }
    while c < current.len()
        invariant
            c <= current@.len(),
            counts == active_counts(current@),
            active_counts(out@) == zeros + counts.take(c as int),
        decreases current@.len() - c,
    {
        let ghost before = active_counts(out@);
        let one = dup_count(&current[c], current[c].count);
        out.push(one);
        proof {
            assert(active_counts(out@) =~= before.push(counts[c as int]));
            assert(before.push(counts[c as int]) =~= zeros + counts.take(c + 1));
        }
        c += 1;
    }
    proof {
        assert(counts.take(c as int) =~= counts);
    }
    *known = current;
    out
}

/// What gauges show after some values were set in turn.
pub open spec fn gauges_after(
    gauges: Map<ActiveLabels, i64>,
    updates: Seq<(ActiveLabels, i64)>,
) -> Map<ActiveLabels, i64>
    decreases updates.len(),
{
    if updates.len() == 0 {
        gauges
    } else {
        gauges_after(gauges, updates.drop_last()).insert(updates.last().0, updates.last().1)
    }
}

/// What a gauge shows; one that was never set shows zero.
pub open spec fn shown(gauges: Map<ActiveLabels, i64>, labels: ActiveLabels) -> i64 {
    if gauges.dom().contains(labels) {
        gauges[labels]
    } else {
        0
    }
}

/// What is active under some labels.
pub open spec fn active_under(counts: Seq<(ActiveLabels, i64)>, labels: ActiveLabels) -> i64 {
    match count_under(counts, labels) {
        Some(n) => n,
        None => 0,
    }
}

/// Counts in order stand under labels that differ.
pub open spec fn counts_in_order(counts: Seq<(ActiveLabels, i64)>) -> bool {
    forall|i: int, j: int|
        0 <= i < j < counts.len() ==> labels_before((#[trigger] counts[i]).0, (#[trigger] counts[j]).0)
}

proof fn lemma_labels_order(a: ActiveLabels, b: ActiveLabels, c: ActiveLabels)
    ensures
        !labels_before(a, a),
        labels_before(a, b) && labels_before(b, c) ==> labels_before(a, c),
        a == b || labels_before(a, b) || labels_before(b, a),
{
    text::lex_order_is_total(a.0, a.0);
    text::lex_order_is_total(a.1, a.1);
    text::lex_order_is_total(a.0, b.0);
    text::lex_order_is_total(a.1, b.1);
    if labels_before(a, b) && labels_before(b, c) {
        if text::lex_lt(a.0, b.0) && text::lex_lt(b.0, c.0) {
            text::lex_order_is_transitive(a.0, b.0, c.0);
        }
        if text::lex_lt(a.1, b.1) && text::lex_lt(b.1, c.1) {
            text::lex_order_is_transitive(a.1, b.1, c.1);
        }
    }
}

proof fn lemma_with_count_in_order(
    counts: Seq<(ActiveLabels, i64)>,
    labels: ActiveLabels,
    n: i64,
    low: Option<ActiveLabels>,
)
    requires
        counts_in_order(counts),
        low is Some ==> labels_before(low->0, labels),
        low is Some ==> forall|i: int|
            0 <= i < counts.len() ==> labels_before(low->0, (#[trigger] counts[i]).0),
    ensures
        counts_in_order(with_count(counts, labels, n)),
        low is Some ==> forall|i: int|
            0 <= i < with_count(counts, labels, n).len() ==> labels_before(
                low->0,
                (#[trigger] with_count(counts, labels, n)[i]).0,
            ),
    decreases counts.len(),
{
    let r = with_count(counts, labels, n);
    if counts.len() > 0 {
        let rest = counts.drop_first();
        assert forall|i: int, j: int| 0 <= i < j < rest.len() implies labels_before(
            (#[trigger] rest[i]).0,
            (#[trigger] rest[j]).0,
        ) by {
            assert(rest[i] == counts[i + 1] && rest[j] == counts[j + 1]);
        }
        if counts[0].0 == labels {
            assert forall|i: int, j: int| 0 <= i < j < r.len() implies labels_before(
                (#[trigger] r[i]).0,
                (#[trigger] r[j]).0,
            ) by {
                assert(r[i].0 == counts[i].0 && r[j].0 == counts[j].0);
            }
            assert forall|i: int| 0 <= i < r.len() implies (#[trigger] r[i]).0 == counts[i].0 by {}
        } else if labels_before(labels, counts[0].0) {
            assert forall|i: int, j: int| 0 <= i < j < r.len() implies labels_before(
                (#[trigger] r[i]).0,
                (#[trigger] r[j]).0,
            ) by {
                assert(r[j] == counts[j - 1]);
                if i == 0 {
                    if j > 1 {
                        assert(labels_before(counts[0].0, counts[j - 1].0));
                        lemma_labels_order(labels, counts[0].0, counts[j - 1].0);
                    }
                } else {
                    assert(r[i] == counts[i - 1]);
                }
            }
            assert forall|i: int| 0 < i < r.len() implies #[trigger] r[i] == counts[i - 1] by {}
        } else {
            lemma_labels_order(labels, counts[0].0, labels);
            assert forall|i: int| 0 <= i < rest.len() implies labels_before(
                counts[0].0,
                (#[trigger] rest[i]).0,
            ) by {
                assert(rest[i] == counts[i + 1]);
            }
            lemma_with_count_in_order(rest, labels, n, Some(counts[0].0));
            let tail = with_count(rest, labels, n);
            assert forall|i: int, j: int| 0 <= i < j < r.len() implies labels_before(
                (#[trigger] r[i]).0,
                (#[trigger] r[j]).0,
            ) by {
                assert(r[j] == tail[j - 1]);
                if i > 0 {
                    assert(r[i] == tail[i - 1]);
                }
            }
            if low is Some {
                assert forall|i: int| 0 <= i < r.len() implies labels_before(
                    low->0,
                    (#[trigger] r[i]).0,
                ) by {
                    if i > 0 {
                        assert(r[i] == tail[i - 1]);
                        lemma_labels_order(low->0, counts[0].0, r[i].0);
                    }
                }
            }
        }
    }
}

proof fn lemma_counts_in_order(rows: Seq<(ActiveLabels, i64)>)
    ensures
        counts_in_order(counts_of(rows)),
    decreases rows.len(),
{
    if rows.len() > 0 {
        lemma_counts_in_order(rows.drop_last());
        lemma_with_count_in_order(
            counts_of(rows.drop_last()),
            rows.last().0,
            rows.last().1,
            None,
        );
    }
}

proof fn lemma_count_at(counts: Seq<(ActiveLabels, i64)>, p: int)
    requires
        counts_in_order(counts),
        0 <= p < counts.len(),
    ensures
        count_under(counts, counts[p].0) == Some(counts[p].1),
    decreases p,
{
    if p > 0 {
        lemma_labels_order(counts[0].0, counts[p].0, counts[p].0);
        assert(labels_before(counts[0].0, counts[p].0));
        let rest = counts.drop_first();
        assert forall|i: int, j: int| 0 <= i < j < rest.len() implies labels_before(
            (#[trigger] rest[i]).0,
            (#[trigger] rest[j]).0,
        ) by {
            assert(rest[i] == counts[i + 1] && rest[j] == counts[j + 1]);
        }
        assert(rest[p - 1] == counts[p]);
        lemma_count_at(rest, p - 1);
    }
}

proof fn lemma_count_found(counts: Seq<(ActiveLabels, i64)>, labels: ActiveLabels)
    requires
        count_under(counts, labels) is Some,
    ensures
        exists|p: int| 0 <= p < counts.len() && (#[trigger] counts[p]).0 == labels,
    decreases counts.len(),
{
    if counts[0].0 != labels {
        lemma_count_found(counts.drop_first(), labels);
        let p = choose|p: int|
            0 <= p < counts.drop_first().len() && (#[trigger] counts.drop_first()[p]).0 == labels;
        assert(counts[p + 1].0 == labels);
    }
}

/// A gauge shows the value that was set last among those of its labels.
proof fn lemma_gauges_after(
    gauges: Map<ActiveLabels, i64>,
    updates: Seq<(ActiveLabels, i64)>,
    labels: ActiveLabels,
    value: i64,
)
    requires
        forall|i: int|
            0 <= i < updates.len() && (#[trigger] updates[i]).0 == labels ==> updates[i].1 == value,
        (forall|i: int| 0 <= i < updates.len() ==> (#[trigger] updates[i]).0 != labels) ==> shown(
            gauges,
            labels,
        ) == value,
    ensures
        shown(gauges_after(gauges, updates), labels) == value,
    decreases updates.len(),
{
    if updates.len() > 0 {
        let rest = updates.drop_last();
        let last = updates[updates.len() - 1];
        if last.0 != labels {
            assert forall|i: int| 0 <= i < rest.len() && (#[trigger] rest[i]).0 == labels implies
                rest[i].1 == value by {
                assert(rest[i] == updates[i]);
            }
            if forall|i: int| 0 <= i < rest.len() ==> (#[trigger] rest[i]).0 != labels {
                assert forall|i: int| 0 <= i < updates.len() implies (#[trigger] updates[i]).0
                    != labels by {
                    if i < rest.len() {
                        assert(rest[i] == updates[i]);
                    }
                }
            }
            lemma_gauges_after(gauges, rest, labels, value);
        }
    }
}

proof fn lemma_zeroes(known: Seq<ActiveLabels>, counts: Seq<(ActiveLabels, i64)>)
    ensures
        forall|i: int|
            0 <= i < zeroes(known, counts).len() ==> (#[trigger] zeroes(known, counts)[i]).1 == 0
                && count_under(counts, zeroes(known, counts)[i].0) is None,
        forall|k: int|
            0 <= k < known.len() && count_under(counts, #[trigger] known[k]) is None
                ==> exists|i: int|
                0 <= i < zeroes(known, counts).len() && (#[trigger] zeroes(known, counts)[i]).0
                    == known[k],
    decreases known.len(),
{
    if known.len() > 0 {
        let rest = known.drop_last();
        let before = zeroes(rest, counts);
        let after = zeroes(known, counts);
        lemma_zeroes(rest, counts);
        assert forall|i: int| 0 <= i < after.len() implies (#[trigger] after[i]).1 == 0 && count_under(
            counts,
            after[i].0,
        ) is None by {
            if i < before.len() {
                assert(after[i] == before[i]);
            }
        }
        assert forall|k: int|
            0 <= k < known.len() && count_under(counts, #[trigger] known[k]) is None implies exists|
            i: int,
        | 0 <= i < after.len() && (#[trigger] after[i]).0 == known[k] by {
            if k < rest.len() {
                assert(rest[k] == known[k]);
                let i = choose|i: int| 0 <= i < before.len() && (#[trigger] before[i]).0 == rest[k];
                assert(after[i] == before[i]);
            } else {
                assert(after[before.len() as int].0 == known[k]);
            }
        }
    }
}

/// Once the values of an update are set, every gauge shows what is active under
/// its labels now: a gauge whose segments are gone shows zero, provided that no
/// gauge outside the known labels showed anything before.
pub proof fn gauges_show_what_is_active(
    gauges: Map<ActiveLabels, i64>,
    known: Seq<ActiveLabels>,
    rows: Seq<(ActiveLabels, i64)>,
    labels: ActiveLabels,
)
    requires
        shown(gauges, labels) != 0 ==> known.contains(labels),
    ensures
        shown(
            gauges_after(gauges, zeroes(known, counts_of(rows)) + counts_of(rows)),
            labels,
        ) == active_under(counts_of(rows), labels),
{
    let counts = counts_of(rows);
    let zeros = zeroes(known, counts);
    let updates = zeros + counts;
    let value = active_under(counts, labels);
    lemma_counts_in_order(rows);
    lemma_zeroes(known, counts);
    assert forall|i: int| 0 <= i < updates.len() && (#[trigger] updates[i]).0 == labels implies
        updates[i].1 == value by {
        if i < zeros.len() {
            assert(updates[i] == zeros[i]);
        } else {
            assert(updates[i] == counts[i - zeros.len()]);
            lemma_count_at(counts, i - zeros.len());
        }
    }
    if forall|i: int| 0 <= i < updates.len() ==> (#[trigger] updates[i]).0 != labels {
        if count_under(counts, labels) is Some {
            lemma_count_found(counts, labels);
            let p = choose|p: int| 0 <= p < counts.len() && (#[trigger] counts[p]).0 == labels;
            assert(updates[zeros.len() + p] == counts[p]);
        } else if known.contains(labels) {
            let k = choose|k: int| 0 <= k < known.len() && known[k] == labels;
            assert(count_under(counts, known[k]) is None);
            let i = choose|i: int| 0 <= i < zeros.len() && (#[trigger] zeros[i]).0 == known[k];
            assert(updates[i] == zeros[i]);
        }
    }
    lemma_gauges_after(gauges, updates, labels, value);
}

/// The statuses whose jobs are waiting, under way or to be looked at.
pub open spec fn backlog_statuses() -> Seq<Seq<char>> {
    seq!["queued"@, "running"@, "failed"@]
}

/// Whether a status is one of the backlog.
pub open spec fn in_backlog(status: Seq<char>) -> bool {
    status == "queued"@ || status == "running"@ || status == "failed"@
}

/// Some counts of jobs by status, as mathematical values.
pub open spec fn status_counts(v: Seq<(String, i64)>) -> Seq<(Seq<char>, i64)> {
    v.map_values(|c: (String, i64)| (c.0@, c.1))
}

/// The zeros with which an update of the backlog begins.
pub fn reset_media_segment_job_backlog() -> (r: Vec<(String, i64)>)
    ensures
        status_counts(r@) == backlog_statuses().map_values(|s: Seq<char>| (s, 0i64)),
{
    let mut out: Vec<(String, i64)> = Vec::new();
    out.push(("queued".to_owned(), 0));
    out.push(("running".to_owned(), 0));
    out.push(("failed".to_owned(), 0));
    proof {
        assert(status_counts(out@) =~= backlog_statuses().map_values(|s: Seq<char>| (s, 0i64)));
    }
    out
}

/// The counts of the backlog.
pub fn update_media_segment_job_backlog_metrics(rows: &Vec<(String, i64)>) -> (r: Vec<(String, i64)>)
    ensures
        status_counts(r@) == status_counts(rows@).filter(|c: (Seq<char>, i64)| in_backlog(c.0)),
{
    let ghost all = status_counts(rows@);
    let ghost kept = |c: (Seq<char>, i64)| in_backlog(c.0);
    let mut out: Vec<(String, i64)> = Vec::new();
    let mut i: usize = 0;
    proof {
        assert(all.take(0).filter(kept) =~= Seq::empty()) by {
            reveal(Seq::filter);
        }
        assert(status_counts(out@) =~= Seq::empty());
    }
    while i < rows.len()
        invariant
            i <= rows@.len(),
            all == status_counts(rows@),
            kept == (|c: (Seq<char>, i64)| in_backlog(c.0)),
            status_counts(out@) == all.take(i as int).filter(kept),
        decreases rows@.len() - i,
    {
        let ghost before = status_counts(out@);
        proof {
            reveal(Seq::filter);
            assert(all.take(i + 1).drop_last() =~= all.take(i as int));
            assert(all.take(i + 1).last() == (rows@[i as int].0@, rows@[i as int].1));
        }
        let s = rows[i].0.as_str();
        if text::str_eq(s, "queued") || text::str_eq(s, "running") || text::str_eq(s, "failed") {
            out.push((rows[i].0.clone(), rows[i].1));
            proof {
                assert(status_counts(out@) =~= before.push((rows@[i as int].0@, rows@[i as int].1)));
            }
        }
        i += 1;
    }
    proof {
        assert(all.take(i as int) =~= all);
    }
    out
}

proof fn lemma_with_count_under(
    counts: Seq<(ActiveLabels, i64)>,
    labels: ActiveLabels,
    n: i64,
    other: ActiveLabels,
)
    ensures
        other != labels ==> count_under(with_count(counts, labels, n), other) == count_under(
            counts,
            other,
        ),
        count_under(with_count(counts, labels, n), labels) == Some(n),
    decreases counts.len(),
{
    let r = with_count(counts, labels, n);
    if counts.len() == 0 {
        assert(r =~= seq![(labels, n)]);
        assert(r.drop_first() =~= counts);
    } else if counts[0].0 == labels {
        assert(r[0] == (labels, n));
        assert(r.drop_first() =~= counts.drop_first());
    } else if labels_before(labels, counts[0].0) {
        assert(r[0] == (labels, n));
        assert(r.drop_first() =~= counts);
    } else {
        lemma_with_count_under(counts.drop_first(), labels, n, other);
        assert(r[0] == counts[0]);
        assert(r.drop_first() =~= with_count(counts.drop_first(), labels, n));
    }
    assert(r.len() > 0);
    assert(count_under(r, labels) == if r[0].0 == labels {
        Some(r[0].1)
    } else {
        count_under(r.drop_first(), labels)
    });
    assert(count_under(r, other) == if r[0].0 == other {
        Some(r[0].1)
    } else {
        count_under(r.drop_first(), other)
    });
}

/// Under some labels the last row of these labels counts; where there is none, nothing
/// does.
pub proof fn last_rows_count(rows: Seq<(ActiveLabels, i64)>, k: int, labels: ActiveLabels)
    ensures
        0 <= k < rows.len() && rows[k].0 == labels && (forall|i: int|
            k < i < rows.len() ==> (#[trigger] rows[i]).0 != labels) ==> active_under(
            counts_of(rows),
            labels,
        ) == rows[k].1,
        (forall|i: int| 0 <= i < rows.len() ==> (#[trigger] rows[i]).0 != labels)
            ==> active_under(counts_of(rows), labels) == 0 && count_under(counts_of(rows), labels)
            is None,
    decreases rows.len(),
{
    if rows.len() > 0 {
        let rest = rows.drop_last();
        last_rows_count(rest, k, labels);
        lemma_with_count_under(counts_of(rest), rows.last().0, rows.last().1, labels);
        if forall|i: int| 0 <= i < rows.len() ==> (#[trigger] rows[i]).0 != labels {
            assert(rows[rows.len() - 1].0 != labels);
            assert forall|i: int| 0 <= i < rest.len() implies (#[trigger] rest[i]).0 != labels by {
                assert(rows[i].0 != labels);
            }
        }
        if 0 <= k < rest.len() && (forall|i: int|
            k < i < rows.len() ==> (#[trigger] rows[i]).0 != labels) {
            assert(rows[rows.len() - 1].0 != labels);
            assert(rest[k] == rows[k]);
            assert forall|i: int| k < i < rest.len() implies (#[trigger] rest[i]).0 != labels by {
                assert(rows[i].0 != labels);
            }
        }
    }
}

/// A job is observed to have taken the milliseconds between its start and its end, just
/// where it is done, both can be read, and it did not end before it began.
pub proof fn done_jobs_are_observed(job: jobs::Job, from: (i64, u32), to: (i64, u32))
    requires
        job.started_at is Some,
        job.finished_at is Some,
        jobs::timestamp_instant(job.started_at->0) == Some(from),
        jobs::timestamp_instant(job.finished_at->0) == Some(to),
    ensures
        ({
            let done = job.status == "succeeded"@ || job.status == "skipped"@ || job.status
                == "failed"@ || job.status == "cancelled"@;
            let took = outside::millis_between(from, to);
            &&& !done ==> job_millis(job) is None
            &&& done && took is Some && took->0 >= 0 ==> job_millis(job) == took
            &&& done && took is Some && took->0 < 0 ==> job_millis(job) is None
        }),
{
}

/// A job without a start or without an end is not observed.
pub proof fn unfinished_jobs_are_not_observed(job: jobs::Job)
    requires
        job.started_at is None || job.finished_at is None,
    ensures
        job_millis(job) is None,
{
}

/// The backlog is made of the jobs that wait, run or have failed.
pub proof fn backlogs_are_of_open_jobs(status: Seq<char>)
    ensures
        in_backlog(status) <==> status == "queued"@ || status == "running"@ || status == "failed"@,
        backlog_statuses().contains(status) <==> status == "queued"@ || status == "running"@
            || status == "failed"@,
{
    let s = backlog_statuses();
    assert(s[0] == "queued"@ && s[1] == "running"@ && s[2] == "failed"@);
}

/// The families on media segments have a label for each value that is counted under
/// them: a job by its provider, its type and its status, a candidate by its provider and
/// the state of its validation, an active segment by its type and its source.
pub proof fn segments_are_counted_by_their_labels(job: jobs::Job)
    ensures
        ({
            let f = segment_families();
            &&& job_labels(job)[0] == job.provider_kind && job_labels(job)[1] == job.job_type
                && job_labels(job)[2] == job.status
            &&& f[0].kind == MetricKind::Counter && f[0].name == "elixir_media_segment_jobs_total"@
                && f[0].labels == seq!["provider_kind"@, "job_type"@, "status"@]
            &&& f[1].kind == MetricKind::Histogram && f[1].name
                == "elixir_media_segment_job_duration_seconds"@ && f[1].labels == f[0].labels
            &&& f[2].kind == MetricKind::Gauge && f[2].name == "elixir_media_segment_job_backlog"@
                && f[2].labels == seq!["status"@]
            &&& f[5].kind == MetricKind::Gauge && f[5].name == "elixir_media_segments_active_total"@
                && f[5].labels == seq!["segment_type"@, "source_label"@]
            &&& f[6].kind == MetricKind::Counter && f[6].name
                == "elixir_media_segment_candidates_total"@ && f[6].labels == seq![
                "provider_kind"@,
                "validation_state"@,
            ]
        }),
{
}

} // verus!
