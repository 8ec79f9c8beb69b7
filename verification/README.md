# rr_channel

Record and replay for message passing channels.

A program that uses these channels can be recorded: every thread writes what its receives, sends and
selects gave to a log of its own. When the program is replayed, each operation follows its entry of
the log. Messages that come too early are kept until it is their turn, so that every thread sees the
same messages in the same order again, however the threads are scheduled.

```
> RR_RECORD_FILE=record.log RR_MODE=record my_program
> RR_RECORD_FILE=record.log RR_MODE=replay my_program
```

Where a replay does not follow its log, it is desynchronized. It then gives up, or, with
`RR_DESYNC_MODE=keep_going`, goes on without the log.

## Layout

`src/` is the verified library. All state of a thread is in one value, `detthread::ThreadState`. An
operation takes it, and says in its contract what it returned, what it logged, and what it kept.

- `detthread`: deterministic ids of threads, and spawning.
- `rr`, `send`, `desync`: receives, sends and desynchronizations in general.
- `crossbeam`, `crossbeam_select`, `mpsc`: channels in a process, and selects.
- `ipc`, `ipc_message`, `ipc_set`, `router`: channels between processes. What crosses the border of
  the process is passed in.
- `recordlog`, `recorder`, `recv_events`, `global_log`: events, logs, and all logs of a run.
- `strict`: channels whose replay gives up on any difference.
- `keyed`: channels with a log that is keyed by thread and event number.
- `laws`, `replay_laws`, `ipc_laws`, `id_laws`, `log_laws`, `keyed::laws`: what holds of whole runs.
  `law_replay_repeats_record` states that a thread whose replay follows its log receives the same
  messages and errors as while recording, on all its channels.
- `wire`: the calls into crossbeam, bincode and the standard library, with what is believed of them.

`app/` holds the threads, files, processes and environment variables around it.
