use lazyslurm::job::{Job, JobState};
use lazyslurm::parser::SlurmParser;
use lazyslurm::text::truncate;

fn job(id: &str) -> Job {
    Job::new(
        id.to_string(),
        "name".to_string(),
        "user".to_string(),
        JobState::Running,
    )
}

#[test]
fn listing_basic_line_with_all_fields() {
    let out = "JOBID,NAME,USER,ST,TIME,NODELIST,PARTITION\n123,train,alice,R,10:00,node01,gpu\n";
    let jobs = SlurmParser::parse_squeue_output(out);
    assert_eq!(jobs.len(), 1);
    let j = &jobs[0];
    assert_eq!(j.job_id, "123");
    assert_eq!(j.name, "train");
    assert_eq!(j.user, "alice");
    assert_eq!(j.state, JobState::Running);
    assert_eq!(j.time_used.as_deref(), Some("10:00"));
    assert_eq!(j.node_list.as_deref(), Some("node01"));
    assert_eq!(j.partition, "gpu");
}

#[test]
fn listing_minimum_four_fields() {
    let jobs = SlurmParser::parse_squeue_output("124,job2,bob,PD");
    assert_eq!(jobs.len(), 1);
    let j = &jobs[0];
    assert_eq!(j.state, JobState::Pending);
    assert_eq!(j.partition, "");
    assert!(j.time_used.is_none());
    assert!(j.node_list.is_none());
}

#[test]
fn listing_short_lines_contribute_no_job() {
    let jobs = SlurmParser::parse_squeue_output("125,x,y\n126,a,b,R\n");
    assert_eq!(jobs.len(), 1);
    assert_eq!(jobs[0].job_id, "126");
}

#[test]
fn listing_blank_lines_and_header_skipped() {
    let jobs = SlurmParser::parse_squeue_output("\n   \nJOBID,NAME,USER,ST\n127,n,u,R\n\n");
    assert_eq!(jobs.len(), 1);
    assert_eq!(jobs[0].job_id, "127");
}

#[test]
fn listing_fields_are_trimmed() {
    let jobs = SlurmParser::parse_squeue_output(" 128 , my job , carol , pd ");
    assert_eq!(jobs.len(), 1);
    let j = &jobs[0];
    assert_eq!(j.job_id, "128");
    assert_eq!(j.name, "my job");
    assert_eq!(j.user, "carol");
    assert_eq!(j.state, JobState::Pending);
}

#[test]
fn listing_array_id_sets_both_fields() {
    let jobs = SlurmParser::parse_squeue_output("23673084_5,n,u,R");
    let j = &jobs[0];
    assert_eq!(j.array_job_id.as_deref(), Some("23673084"));
    assert_eq!(j.array_task_id, Some(5));
    assert!(j.is_array_job());
    assert_eq!(j.display_id(), "23673084_5");
}

#[test]
fn listing_plain_id_sets_no_array_fields() {
    let jobs = SlurmParser::parse_squeue_output("98200,n,u,R");
    let j = &jobs[0];
    assert!(j.array_job_id.is_none());
    assert!(j.array_task_id.is_none());
    assert_eq!(j.display_id(), "98200");
}

#[test]
fn listing_non_numeric_suffix_sets_no_array_fields() {
    let jobs = SlurmParser::parse_squeue_output("12_ab,n,u,R");
    let j = &jobs[0];
    assert!(j.array_job_id.is_none());
    assert!(j.array_task_id.is_none());
    assert_eq!(j.display_id(), "12_ab");
}

#[test]
fn listing_empty_array_parts_set_no_array_fields() {
    let jobs = SlurmParser::parse_squeue_output("_5,n,u,R\n12_,n,u,R\n1_2_3,n,u,R");
    assert_eq!(jobs.len(), 3);
    for j in &jobs {
        assert!(j.array_job_id.is_none());
        assert!(j.array_task_id.is_none());
    }
}

#[test]
fn state_codes_map_both_ways() {
    assert_eq!(JobState::from_code("PD"), JobState::Pending);
    assert_eq!(JobState::from_code("PENDING"), JobState::Pending);
    assert_eq!(JobState::from_code("pending"), JobState::Pending);
    assert_eq!(JobState::from_code("R"), JobState::Running);
    assert_eq!(JobState::from_code("RUNNING"), JobState::Running);
    assert_eq!(JobState::from_code("CD"), JobState::Completed);
    assert_eq!(JobState::from_code("COMPLETING"), JobState::Completed);
    assert_eq!(JobState::from_code("CA"), JobState::Cancelled);
    assert_eq!(JobState::from_code("F"), JobState::Failed);
    assert_eq!(JobState::from_code("TO"), JobState::Timeout);
    assert_eq!(JobState::from_code("NODE_FAIL"), JobState::NodeFail);
    assert_eq!(JobState::from_code("PR"), JobState::Preempted);
    assert_eq!(
        JobState::from_code("WEIRD"),
        JobState::Unknown("WEIRD".to_string())
    );
    assert_eq!(JobState::Pending.code(), "PD");
    assert_eq!(JobState::Running.code(), "R");
    assert_eq!(JobState::Completed.code(), "CD");
    assert_eq!(JobState::Cancelled.code(), "CA");
    assert_eq!(JobState::Failed.code(), "F");
    assert_eq!(JobState::Timeout.code(), "TO");
    assert_eq!(JobState::NodeFail.code(), "NF");
    assert_eq!(JobState::Preempted.code(), "PR");
    assert_eq!(JobState::Unknown("zz".to_string()).code(), "zz");
}

#[test]
fn scontrol_basic_pairs() {
    let f = SlurmParser::parse_scontrol_output("JobId=123 JobName=test Partition=gpu");
    assert_eq!(f.get("JobId").as_deref(), Some("123"));
    assert_eq!(f.get("JobName").as_deref(), Some("test"));
    assert_eq!(f.get("Partition").as_deref(), Some("gpu"));
    assert!(f.get("Missing").is_none());
}

#[test]
fn scontrol_quoted_value_keeps_spaces() {
    let f = SlurmParser::parse_scontrol_output("Command=\"/bin/echo hello world\" N=1");
    assert_eq!(f.get("Command").as_deref(), Some("/bin/echo hello world"));
    assert_eq!(f.get("N").as_deref(), Some("1"));
}

#[test]
fn scontrol_value_continues_to_next_pair() {
    let f = SlurmParser::parse_scontrol_output("Reason=Resources not available Priority=100");
    assert_eq!(f.get("Reason").as_deref(), Some("Resources not available"));
    assert_eq!(f.get("Priority").as_deref(), Some("100"));
}

#[test]
fn scontrol_last_duplicate_key_wins() {
    let f = SlurmParser::parse_scontrol_output("A=1 B=x A=2");
    assert_eq!(f.get("A").as_deref(), Some("2"));
    assert_eq!(f.get("B").as_deref(), Some("x"));
}

#[test]
fn scontrol_malformed_tokens_ignored() {
    let f = SlurmParser::parse_scontrol_output("junk A=1 ok B=2");
    assert_eq!(f.get("A").as_deref(), Some("1 ok"));
    assert_eq!(f.get("B").as_deref(), Some("2"));
    assert!(f.get("junk").is_none());
}

#[test]
fn scontrol_pairs_do_not_cross_lines() {
    let f = SlurmParser::parse_scontrol_output("A=1\ncontinued B=2");
    assert_eq!(f.get("A").as_deref(), Some("1"));
    assert_eq!(f.get("B").as_deref(), Some("2"));
}

#[test]
fn merge_submit_time_unknown_stays_none() {
    let f = SlurmParser::parse_scontrol_output("SubmitTime=Unknown");
    let mut j = job("1");
    SlurmParser::enhance_job_with_scontrol_data(&mut j, &f);
    assert!(j.submit_time.is_none());
}

#[test]
fn merge_submit_time_parses_to_utc_epoch() {
    let f = SlurmParser::parse_scontrol_output("SubmitTime=2024-01-15T10:19:13");
    let mut j = job("1");
    SlurmParser::enhance_job_with_scontrol_data(&mut j, &f);
    assert_eq!(j.submit_time, Some(1705313953));
}

#[test]
fn merge_time_with_fraction_parses() {
    let f = SlurmParser::parse_scontrol_output("StartTime=2024-01-15T10:19:13.500");
    let mut j = job("1");
    SlurmParser::enhance_job_with_scontrol_data(&mut j, &f);
    assert_eq!(j.start_time, Some(1705313953));
}

#[test]
fn merge_exit_code_zero() {
    let f = SlurmParser::parse_scontrol_output("ExitCode=0:0");
    let mut j = job("1");
    SlurmParser::enhance_job_with_scontrol_data(&mut j, &f);
    assert_eq!(j.exit_code, Some(0));
}

#[test]
fn merge_exit_code_oom_kill() {
    let f = SlurmParser::parse_scontrol_output("ExitCode=137:9");
    let mut j = job("1");
    SlurmParser::enhance_job_with_scontrol_data(&mut j, &f);
    assert_eq!(j.exit_code, Some(137));
}

#[test]
fn merge_numeric_fields() {
    let f = SlurmParser::parse_scontrol_output("NumNodes=2 NumCPUs=8");
    let mut j = job("1");
    SlurmParser::enhance_job_with_scontrol_data(&mut j, &f);
    assert_eq!(j.nodes, Some(2));
    assert_eq!(j.cpus, Some(8));
}

#[test]
fn merge_unparsable_number_leaves_none() {
    let f = SlurmParser::parse_scontrol_output("NumNodes=garbage");
    let mut j = job("1");
    j.nodes = Some(7);
    SlurmParser::enhance_job_with_scontrol_data(&mut j, &f);
    assert!(j.nodes.is_none());
}

#[test]
fn merge_verbatim_fields() {
    let f = SlurmParser::parse_scontrol_output(
        "WorkDir=/home/alice StdOut=/tmp/o.log StdErr=/tmp/e.log MinMemoryNode=4G Reason=None TimeLimit=01:00:00",
    );
    let mut j = job("1");
    SlurmParser::enhance_job_with_scontrol_data(&mut j, &f);
    assert_eq!(j.working_dir.as_deref(), Some("/home/alice"));
    assert_eq!(j.std_out.as_deref(), Some("/tmp/o.log"));
    assert_eq!(j.std_err.as_deref(), Some("/tmp/e.log"));
    assert_eq!(j.memory.as_deref(), Some("4G"));
    assert_eq!(j.reason.as_deref(), Some("None"));
    assert_eq!(j.time_limit.as_deref(), Some("01:00:00"));
}

#[test]
fn merge_absent_keys_keep_prior_values() {
    let f = SlurmParser::parse_scontrol_output("Unrelated=1");
    let mut j = job("1");
    j.submit_time = Some(42);
    j.working_dir = Some("/keep".to_string());
    SlurmParser::enhance_job_with_scontrol_data(&mut j, &f);
    assert_eq!(j.submit_time, Some(42));
    assert_eq!(j.working_dir.as_deref(), Some("/keep"));
}

#[test]
fn parse_slurm_time_sentinels() {
    assert!(SlurmParser::parse_slurm_time("Unknown").is_none());
    assert!(SlurmParser::parse_slurm_time("None").is_none());
    assert!(SlurmParser::parse_slurm_time("").is_none());
    assert!(SlurmParser::parse_slurm_time("not-a-time").is_none());
    assert_eq!(
        SlurmParser::parse_slurm_time("1970-01-01T00:00:01"),
        Some(1)
    );
}

#[test]
fn log_paths_with_all_sources() {
    let mut j = job("55");
    j.std_out = Some("/a/out.log".to_string());
    j.std_err = Some("/a/err.log".to_string());
    j.working_dir = Some("/work".to_string());
    let paths = SlurmParser::get_job_log_paths(&j);
    assert_eq!(
        paths,
        vec![
            "/a/out.log".to_string(),
            "/a/err.log".to_string(),
            "/work/slurm-55.out".to_string(),
            "/work/slurm-55.err".to_string(),
            "/tmp/slurm-55.out".to_string(),
            "/tmp/slurm-55.err".to_string(),
        ]
    );
}

#[test]
fn log_paths_equal_stderr_not_repeated() {
    let mut j = job("56");
    j.std_out = Some("/same.log".to_string());
    j.std_err = Some("/same.log".to_string());
    let paths = SlurmParser::get_job_log_paths(&j);
    assert_eq!(
        paths,
        vec![
            "/same.log".to_string(),
            "slurm-56.out".to_string(),
            "slurm-56.err".to_string(),
            "/tmp/slurm-56.out".to_string(),
            "/tmp/slurm-56.err".to_string(),
        ]
    );
}

#[test]
fn log_paths_fall_back_to_current_directory() {
    let j = job("57");
    let paths = SlurmParser::get_job_log_paths(&j);
    assert_eq!(
        paths,
        vec![
            "slurm-57.out".to_string(),
            "slurm-57.err".to_string(),
            "/tmp/slurm-57.out".to_string(),
            "/tmp/slurm-57.err".to_string(),
        ]
    );
}

#[test]
fn truncate_keeps_short_text() {
    assert_eq!(truncate("abc", 5), "abc");
    assert_eq!(truncate("abcde", 5), "abcde");
}

#[test]
fn truncate_cuts_long_text_with_ellipsis() {
    assert_eq!(truncate("abcdefgh", 5), "ab...");
    assert_eq!(truncate("abcd", 3), "...");
}
