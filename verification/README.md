# udp_lb

A UDP full-NAT load balancer built around an XDP data plane.

- `src/` is the library, verified with Verus:
  - `common`: the records shared by the data plane and the control plane;
  - `hash`: the flow hash (Jenkins `final` mix);
  - `checksum`: the IPv4 header checksum and the fact that a header
    carrying its own checksum checks out;
  - `packet`: packet layout, field reads and writes, the full-NAT rewrite;
  - `dataplane`: parsing and routing of packets, choice of a real server,
    session entries, forward and reverse rewrites;
  - `pipeline`: one run of the XDP program as steps between map operations;
  - `config`: configuration records and MAC address parsing;
  - `ring`: filling the hash ring and the evenness of its slots;
  - `conntrack`: reclaiming idle sessions;
  - `health`: the decisions of the periodic backend probing loop;
  - `laws`: properties that span several steps of the data plane.
- `app/` is the program around it: configuration file loading, the kernel
  maps and XDP entry point, ring and configuration upload, the health
  checks (performing the probing step's actions) and the reclaiming loop.
- `tests/` runs the library on concrete packets and configurations.
