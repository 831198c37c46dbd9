# fernfs

The verified core of a user-space NFSv3 server, written in Verus.

- `src/protocol/rpc/transaction_tracker.rs`: at-most-once execution of RPC
  calls. The tracker is modelled as a map from (XID, client address) to
  "in progress" or "completed with this reply at this time"; every operation
  has a contract over that map, and the properties that span calls (a new
  call is reported in progress until answered, a recorded reply is replayed
  within the retention period, a cleared call is new again) are proved as
  `law_*` proof functions.
- `src/protocol/xdr/`: XDR data types of NFSv3, MOUNT and RPC, padding,
  and encoders/decoders with their round-trip laws.
- `src/protocol/nfs/mount/mnt.rs`: resolution of MOUNT requests under the
  export and the bytes of the MNT reply.
- `src/vfs/permissions.rs`: UNIX permission bits and the answer to an
  ACCESS request, with laws (nothing unrequested is granted, read-only file
  systems grant no writes, ...).
- `src/fs_entry.rs`: entries of the mirrored file system.
- `src/cli.rs`: the server's command line.

`app/` holds the stream I/O (padding on `Read`/`Write`, the MNT procedure on
its streams) and the command line's printing and logging set-up.
