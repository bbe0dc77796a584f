use portpilot::sys::{collect_ports, kill_outcome, socket_owners, PortInfo, ProcessSockets, SocketEntry};

fn proc_with(pid: i32, name: Option<&str>, inodes: &[u64]) -> ProcessSockets {
    ProcessSockets { pid, name: name.map(|n| n.to_string()), socket_inodes: inodes.to_vec() }
}

#[test]
fn owners_map_each_socket_to_its_process() {
    let procs = vec![
        proc_with(10, Some("sshd"), &[100, 101]),
        proc_with(20, None, &[200]),
        proc_with(30, Some("nginx"), &[101]),
    ];
    let owners = socket_owners(&procs);
    assert_eq!(owners.len(), 3);
    assert_eq!(owners.get(&100), Some(&(10, "sshd".to_string())));
    assert_eq!(owners.get(&101), Some(&(30, "nginx".to_string())));
    assert_eq!(owners.get(&200), Some(&(20, "unknown".to_string())));
    assert_eq!(owners.get(&300), None);
}

#[test]
fn ports_list_tcp_then_udp_with_owners() {
    let procs = vec![proc_with(10, Some("sshd"), &[100]), proc_with(20, None, &[200])];
    let owners = socket_owners(&procs);
    let tcp = vec![SocketEntry { port: 22, inode: 100 }, SocketEntry { port: 8080, inode: 999 }];
    let udp = vec![SocketEntry { port: 53, inode: 200 }];
    let ports = collect_ports(&tcp, &udp, &owners);
    assert_eq!(
        ports,
        vec![
            PortInfo {
                port: 22,
                pid: Some(10),
                process_name: Some("sshd".to_string()),
                protocol: "TCP".to_string(),
            },
            PortInfo { port: 8080, pid: None, process_name: None, protocol: "TCP".to_string() },
            PortInfo {
                port: 53,
                pid: Some(20),
                process_name: Some("unknown".to_string()),
                protocol: "UDP".to_string(),
            },
        ]
    );
}

#[test]
fn ports_empty_tables() {
    let owners = socket_owners(&Vec::new());
    assert!(owners.is_empty());
    assert!(collect_ports(&Vec::new(), &Vec::new(), &owners).is_empty());
}

#[test]
fn kill_outcomes() {
    assert_eq!(kill_outcome(true, true), Ok(()));
    assert_eq!(kill_outcome(false, false), Err("Process not found".to_string()));
    assert_eq!(kill_outcome(false, true), Err("Process not found".to_string()));
    assert_eq!(kill_outcome(true, false), Err("Failed to kill process".to_string()));
}
